//! Parsing what the system tools report about audio devices, monitors and
//! graphics cards into device lists.

use vstd::prelude::*;
use crate::text::{
    chars_of, contains, contains_exec, find, first_match, holds_seqs, is_first_match, is_ws, lemma_first_match, lemma_first_match_found,
    lemma_replace_absent, lemma_replace_leading, lemma_trim_indented, lemma_trim_keeps_first,
    lemma_trim_unpadded, lemma_trim_within, lines,
    matches_at, replace_all, replace_all_exec, slice_chars, split_lines, split_once, split_once_exec,
    starts_with, starts_with_exec, string_of, trim, trim_chars,
};

verus! {

broadcast use vstd::string::group_string_axioms;

/// A monitor that the recorder can capture.
#[derive(Clone, PartialEq, Debug)]
pub struct MonitorDevice {
    pub name: String,
    pub resolution: String,
}

impl View for MonitorDevice {
    type V = (Seq<char>, Seq<char>);

    open spec fn view(&self) -> (Seq<char>, Seq<char>) {
        (self.name@, self.resolution@)
    }
}

/// An audio source or sink.
#[derive(Clone, PartialEq, Debug)]
pub struct AudioDevice {
    pub name: String,
    pub description: String,
}

impl View for AudioDevice {
    type V = (Seq<char>, Seq<char>);

    open spec fn view(&self) -> (Seq<char>, Seq<char>) {
        (self.name@, self.description@)
    }
}

/// A graphics card that can encode video.
#[derive(Clone, PartialEq, Debug)]
pub struct GpuDevice {
    pub pci_id: String,
    pub name: String,
}

impl View for GpuDevice {
    type V = (Seq<char>, Seq<char>);

    open spec fn view(&self) -> (Seq<char>, Seq<char>) {
        (self.pci_id@, self.name@)
    }
}

/// Whether the values of `v` have exactly the views in `q`.
pub open spec fn views_are<T: View>(v: Seq<T>, q: Seq<T::V>) -> bool {
    v.len() == q.len() && forall|i: int| 0 <= i < v.len() ==> #[trigger] v[i]@ == q[i]
}

// ---------------------------------------------------------------------------
// "name|detail" listings of the recorder
// ---------------------------------------------------------------------------
/// The entries of a `name|detail` listing: one per line that holds a `|`,
/// split at its first `|`; other lines are skipped.
pub open spec fn bar_entries(ls: Seq<Seq<char>>) -> Seq<(Seq<char>, Seq<char>)> {
    ls.filter_map(|l: Seq<char>| split_once(l, '|'))
}

/// The monitors of the recorder's monitor listing, one `name|resolution`
/// per line.
pub open spec fn monitors_of(listing: Seq<char>) -> Seq<(Seq<char>, Seq<char>)> {
    bar_entries(lines(listing))
}

/// The monitors that the recorder's monitor listing names.
pub fn monitors_from_listing(listing: &str) -> (r: Vec<MonitorDevice>)
    ensures
        views_are(r@, monitors_of(listing@)),
{
    let text = chars_of(listing);
    let ls = split_lines(&text);
    let mut r: Vec<MonitorDevice> = Vec::new();
    let mut i: usize = 0;
    while i < ls.len()
        invariant
            i <= ls.len(),
            holds_seqs(ls@, lines(listing@)),
            views_are(r@, bar_entries(lines(listing@).take(i as int))),
        decreases ls.len() - i,
    {
        let ghost all = lines(listing@);
        assert(all.take(i + 1).drop_last() =~= all.take(i as int));
        assert(all.take(i + 1).last() == ls@[i as int]@);
        match split_once_exec(&ls[i], '|') {
            Some((a, b)) => {
                r.push(MonitorDevice { name: string_of(&a), resolution: string_of(&b) });
            },
            None => {},
        }
        i = i + 1;
    }
    assert(lines(listing@).take(ls.len() as int) =~= lines(listing@));
    r
}

/// The outputs of the recorder's audio listing: entries whose name holds
/// `output` and not `input`.
pub open spec fn audio_outputs_of(listing: Seq<char>) -> Seq<(Seq<char>, Seq<char>)> {
    outputs_among(bar_entries(lines(listing)))
}

/// The output entries among `es`, in order.
pub open spec fn outputs_among(es: Seq<(Seq<char>, Seq<char>)>) -> Seq<(Seq<char>, Seq<char>)> {
    es.filter(|e: (Seq<char>, Seq<char>)| is_output_entry(e))
}

/// The input entries among `es`, in order.
pub open spec fn inputs_among(es: Seq<(Seq<char>, Seq<char>)>) -> Seq<(Seq<char>, Seq<char>)> {
    es.filter(|e: (Seq<char>, Seq<char>)| is_input_entry(e))
}

/// The inputs of the recorder's audio listing: entries whose name holds
/// `input`.
pub open spec fn audio_inputs_of(listing: Seq<char>) -> Seq<(Seq<char>, Seq<char>)> {
    inputs_among(bar_entries(lines(listing)))
}


proof fn lemma_filter_append_one<A>(s: Seq<A>, x: A, p: spec_fn(A) -> bool)
    ensures
        (s + seq![x]).filter(p) == if p(x) {
            s.filter(p).push(x)
        } else {
            s.filter(p)
        },
{
    reveal(Seq::filter);
    let t = s + seq![x];
    assert(t.drop_last() =~= s);
    assert(t.last() == x);
}

/// Whether an audio entry is an input: its name holds `input`.
pub open spec fn is_input_entry(e: (Seq<char>, Seq<char>)) -> bool {
    contains(e.0, "input"@)
}

/// Whether an audio entry is an output: its name holds `output` and not
/// `input`.
pub open spec fn is_output_entry(e: (Seq<char>, Seq<char>)) -> bool {
    !contains(e.0, "input"@) && contains(e.0, "output"@)
}

/// The audio devices that the recorder's audio listing names, one
/// `name|description` per line: the outputs first, then the inputs.
/// A name that holds neither word is dropped.
pub fn audio_devices_from_listing(listing: &str) -> (r: (Vec<AudioDevice>, Vec<AudioDevice>))
    ensures
        views_are(r.0@, audio_outputs_of(listing@)),
        views_are(r.1@, audio_inputs_of(listing@)),
{
    let text = chars_of(listing);
    let ls = split_lines(&text);
    let input_word = chars_of("input");
    let output_word = chars_of("output");
    let mut outputs: Vec<AudioDevice> = Vec::new();
    let mut inputs: Vec<AudioDevice> = Vec::new();
    let ghost all = lines(listing@);
    let ghost f = |l: Seq<char>| split_once(l, '|');
    let mut i: usize = 0;
    while i < ls.len()
        invariant
            i <= ls.len(),
            holds_seqs(ls@, all),
            all == lines(listing@),
            f == (|l: Seq<char>| split_once(l, '|')),
            input_word@ == "input"@,
            output_word@ == "output"@,
            views_are(outputs@, outputs_among(bar_entries(all.take(i as int)))),
            views_are(inputs@, inputs_among(bar_entries(all.take(i as int)))),
        decreases ls.len() - i,
    {
        let ghost prev = all.take(i as int).filter_map(f);
        assert(all.take(i + 1).drop_last() =~= all.take(i as int));
        assert(all.take(i + 1).last() == ls@[i as int]@);
        match split_once_exec(&ls[i], '|') {
            Some((a, b)) => {
                let ghost e = (a@, b@);
                assert(all.take(i + 1).filter_map(f) == prev + seq![e]);
                assert((prev + seq![e]).drop_last() =~= prev);
                assert((prev + seq![e]).last() == e);
                assert(bar_entries(all.take(i + 1)) == prev + seq![e]);
                let is_in = contains_exec(&a, &input_word);
                let device = AudioDevice { name: string_of(&a), description: string_of(&b) };
                proof {
                    lemma_filter_append_one(prev, e, |e: (Seq<char>, Seq<char>)| is_input_entry(e));
                    lemma_filter_append_one(prev, e, |e: (Seq<char>, Seq<char>)| is_output_entry(e));
                }
                assert(inputs_among(prev + seq![e]) == if is_input_entry(e) {
                    inputs_among(prev).push(e)
                } else {
                    inputs_among(prev)
                });
                assert(outputs_among(prev + seq![e]) == if is_output_entry(e) {
                    outputs_among(prev).push(e)
                } else {
                    outputs_among(prev)
                });
                if is_in {
                    inputs.push(device);
                } else if contains_exec(&a, &output_word) {
                    outputs.push(device);
                }
            },
            None => {
                assert(all.take(i + 1).filter_map(f) == prev);
                assert(bar_entries(all.take(i + 1)) == prev);
            },
        }
        i = i + 1;
    }
    assert(all.take(ls.len() as int) =~= all);
    (outputs, inputs)
}


// ---------------------------------------------------------------------------
// pactl listings
// ---------------------------------------------------------------------------
/// The arguments of `pactl` that list the sinks, or the sources.
pub fn pactl_list_args(is_sink: bool) -> (r: Vec<String>)
    ensures
        crate::text::strings_are(r@, seq!["list"@, if is_sink { "sinks"@ } else { "sources"@ }]),
{
    let mut r: Vec<String> = Vec::new();
    r.push(crate::text::owned("list"));
    if is_sink {
        r.push(crate::text::owned("sinks"));
    } else {
        r.push(crate::text::owned("sources"));
    }
    r
}

/// A device of a pactl listing: its name, and its description, or its name
/// again where the description is empty.
pub open spec fn pactl_entry(name: Seq<char>, desc: Seq<char>) -> (Seq<char>, Seq<char>) {
    (name, if desc.len() == 0 { name } else { desc })
}

/// The devices found so far, with the device in progress added where it
/// has a name.
pub open spec fn pactl_flush(
    devs: Seq<(Seq<char>, Seq<char>)>,
    name: Seq<char>,
    desc: Seq<char>,
) -> Seq<(Seq<char>, Seq<char>)> {
    if name.len() > 0 {
        devs.push(pactl_entry(name, desc))
    } else {
        devs
    }
}

/// Whether a pactl line opens a new device block.
pub open spec fn is_block_header(line: Seq<char>) -> bool {
    starts_with(line, "Sink #"@) || starts_with(line, "Source #"@)
}

/// What follows a `key` in a trimmed line: every occurrence of the key
/// removed, then trimmed.
pub open spec fn field_value(t: Seq<char>, key: Seq<char>) -> Seq<char> {
    trim(replace_all(t, key, seq![]))
}

/// One step of reading a pactl listing: the devices found, and the name and
/// description of the device in progress, after `line`.
pub open spec fn pactl_step(
    st: (Seq<(Seq<char>, Seq<char>)>, Seq<char>, Seq<char>),
    line: Seq<char>,
) -> (Seq<(Seq<char>, Seq<char>)>, Seq<char>, Seq<char>) {
    let (devs, name, desc) = if is_block_header(line) && st.1.len() > 0 {
        (pactl_flush(st.0, st.1, st.2), Seq::<char>::empty(), Seq::<char>::empty())
    } else {
        st
    };
    let t = trim(line);
    if starts_with(t, "Name: "@) {
        (devs, field_value(t, "Name: "@), desc)
    } else if starts_with(t, "Description: "@) {
        (devs, name, field_value(t, "Description: "@))
    } else {
        (devs, name, desc)
    }
}

/// The state after reading all of `ls`.
pub open spec fn pactl_scan(ls: Seq<Seq<char>>) -> (
    Seq<(Seq<char>, Seq<char>)>,
    Seq<char>,
    Seq<char>,
)
    decreases ls.len(),
{
    if ls.len() == 0 {
        (seq![], seq![], seq![])
    } else {
        pactl_step(pactl_scan(ls.drop_last()), ls.last())
    }
}

/// The devices of a `pactl list` listing, in order: each `Sink #` or
/// `Source #` line closes the device in progress, and the last one is
/// closed at the end.
pub open spec fn pactl_devices_of(listing: Seq<char>) -> Seq<(Seq<char>, Seq<char>)> {
    let st = pactl_scan(lines(listing));
    pactl_flush(st.0, st.1, st.2)
}

fn push_pactl_device(devs: &mut Vec<AudioDevice>, name: &Vec<char>, desc: &Vec<char>)
    requires
        name.len() > 0,
    ensures
        final(devs)@.len() == old(devs)@.len() + 1,
        forall|i: int| 0 <= i < old(devs)@.len() ==> final(devs)@[i] == old(devs)@[i],
        final(devs)@.last()@ == pactl_entry(name@, desc@),
{
    let description = if desc.len() == 0 {
        string_of(name)
    } else {
        string_of(desc)
    };
    devs.push(AudioDevice { name: string_of(name), description });
}

/// The audio devices that a `pactl list sinks` or `pactl list sources`
/// listing describes.
pub fn pactl_devices(listing: &str) -> (r: Vec<AudioDevice>)
    ensures
        views_are(r@, pactl_devices_of(listing@)),
{
    let text = chars_of(listing);
    let ls = split_lines(&text);
    let sink = chars_of("Sink #");
    let source = chars_of("Source #");
    let name_key = chars_of("Name: ");
    let desc_key = chars_of("Description: ");
    let empty: Vec<char> = Vec::new();
    proof {
        reveal_strlit("Name: ");
        reveal_strlit("Description: ");
    }
    let mut devs: Vec<AudioDevice> = Vec::new();
    let mut name: Vec<char> = Vec::new();
    let mut desc: Vec<char> = Vec::new();
    let ghost all = lines(listing@);
    let mut i: usize = 0;
    while i < ls.len()
        invariant
            i <= ls.len(),
            holds_seqs(ls@, all),
            all == lines(listing@),
            sink@ == "Sink #"@,
            source@ == "Source #"@,
            name_key@ == "Name: "@,
            desc_key@ == "Description: "@,
            name_key@.len() > 0,
            desc_key@.len() > 0,
            empty@ == Seq::<char>::empty(),
            views_are(devs@, pactl_scan(all.take(i as int)).0),
            name@ == pactl_scan(all.take(i as int)).1,
            desc@ == pactl_scan(all.take(i as int)).2,
        decreases ls.len() - i,
    {
        let line = &ls[i];
        assert(all.take(i + 1).drop_last() =~= all.take(i as int));
        assert(all.take(i + 1).last() == line@);
        let header = starts_with_exec(line, &sink) || starts_with_exec(line, &source);
        if header && name.len() > 0 {
            let ghost before = devs@;
            push_pactl_device(&mut devs, &name, &desc);
            assert(views_are(devs@, pactl_scan(all.take(i as int)).0.push(pactl_entry(name@, desc@))))
                by {
                assert forall|j: int| 0 <= j < devs@.len() implies #[trigger] devs@[j]@
                    == pactl_scan(all.take(i as int)).0.push(pactl_entry(name@, desc@))[j] by {
                    if j < before.len() {
                        assert(devs@[j] == before[j]);
                    }
                }
            }
            name = Vec::new();
            desc = Vec::new();
        }
        let t = trim_chars(line);
        if starts_with_exec(&t, &name_key) {
            let v = replace_all_exec(&t, &name_key, &empty);
            name = trim_chars(&v);
        } else if starts_with_exec(&t, &desc_key) {
            let v = replace_all_exec(&t, &desc_key, &empty);
            desc = trim_chars(&v);
        }
        assert(name@ =~= pactl_scan(all.take(i + 1)).1);
        assert(desc@ =~= pactl_scan(all.take(i + 1)).2);
        i = i + 1;
    }
    assert(all.take(ls.len() as int) =~= all);
    if name.len() > 0 {
        let ghost before = devs@;
        push_pactl_device(&mut devs, &name, &desc);
        assert(views_are(devs@, pactl_devices_of(listing@))) by {
            assert forall|j: int| 0 <= j < devs@.len() implies #[trigger] devs@[j]@
                == pactl_devices_of(listing@)[j] by {
                if j < before.len() {
                    assert(devs@[j] == before[j]);
                }
            }
        }
    }
    devs
}

/// Whether every entry has a non-empty name and a non-empty description.
pub open spec fn all_named(es: Seq<(Seq<char>, Seq<char>)>) -> bool {
    forall|i: int| 0 <= i < es.len() ==> (#[trigger] es[i]).0.len() > 0 && es[i].1.len() > 0
}

proof fn lemma_pactl_scan_named(ls: Seq<Seq<char>>)
    ensures
        all_named(pactl_scan(ls).0),
    decreases ls.len(),
{
    if ls.len() > 0 {
        let prev = pactl_scan(ls.drop_last());
        lemma_pactl_scan_named(ls.drop_last());
        let f = pactl_flush(prev.0, prev.1, prev.2);
        assert(all_named(f)) by {
            assert forall|i: int| 0 <= i < f.len() implies (#[trigger] f[i]).0.len() > 0
                && f[i].1.len() > 0 by {
                if i < prev.0.len() {
                    assert(f[i] == prev.0[i]);
                }
            }
        }
    }
}

/// Every audio device of a pactl listing has a name and a description:
/// where the listing gives no description, the name stands for it.
pub proof fn lemma_pactl_devices_named(listing: Seq<char>)
    ensures
        all_named(pactl_devices_of(listing)),
{
    let st = pactl_scan(lines(listing));
    lemma_pactl_scan_named(lines(listing));
    let f = pactl_flush(st.0, st.1, st.2);
    assert forall|i: int| 0 <= i < f.len() implies (#[trigger] f[i]).0.len() > 0 && f[i].1.len()
        > 0 by {
        if i < st.0.len() {
            assert(f[i] == st.0[i]);
        }
    }
}

/// The `Name:` line of a pactl device block, indented by a tab.
pub open spec fn pactl_name_line(name: Seq<char>) -> Seq<char> {
    seq!['\t'] + "Name: "@ + name
}

/// The `Description:` line of a pactl device block, indented by a tab.
pub open spec fn pactl_desc_line(desc: Seq<char>) -> Seq<char> {
    seq!['\t'] + "Description: "@ + desc
}

/// The lines of one pactl device block: the header line, the `Name:` line,
/// and the `Description:` line where the description is not empty.
pub open spec fn pactl_block(header: Seq<char>, name: Seq<char>, desc: Seq<char>) -> Seq<
    Seq<char>,
> {
    seq![header, pactl_name_line(name)] + if desc.len() > 0 {
        seq![pactl_desc_line(desc)]
    } else {
        seq![]
    }
}

/// The lines of the first `k` device blocks with the given headers, names
/// and descriptions, one block after the other.
pub open spec fn pactl_blocks(
    headers: Seq<Seq<char>>,
    names: Seq<Seq<char>>,
    descs: Seq<Seq<char>>,
    k: nat,
) -> Seq<Seq<char>>
    decreases k,
{
    if k == 0 {
        seq![]
    } else {
        pactl_blocks(headers, names, descs, (k - 1) as nat) + pactl_block(
            headers[k - 1],
            names[k - 1],
            descs[k - 1],
        )
    }
}

/// Whether a device block is an ordinary one: its header starts with
/// `Sink #` or `Source #`, its name is not empty, and the name and the
/// description neither start nor end with whitespace nor repeat their key.
pub open spec fn pactl_block_ok(header: Seq<char>, name: Seq<char>, desc: Seq<char>) -> bool {
    &&& starts_with(header, "Sink #"@) || starts_with(header, "Source #"@)
    &&& name.len() > 0 && !is_ws(name[0]) && !is_ws(name.last()) && !contains(name, "Name: "@)
    &&& desc.len() > 0 ==> !is_ws(desc[0]) && !is_ws(desc.last()) && !contains(
        desc,
        "Description: "@,
    )
}

proof fn lemma_pactl_scan_push(ls: Seq<Seq<char>>, line: Seq<char>)
    ensures
        pactl_scan(ls.push(line)) == pactl_step(pactl_scan(ls), line),
{
    assert(ls.push(line).drop_last() =~= ls);
}

/// A `Sink #` or `Source #` line closes the device in progress: the device
/// is added where it has a name, and the next one starts out empty.
pub proof fn lemma_pactl_header_closes(
    st: (Seq<(Seq<char>, Seq<char>)>, Seq<char>, Seq<char>),
    header: Seq<char>,
)
    requires
        starts_with(header, "Sink #"@) || starts_with(header, "Source #"@),
    ensures
        pactl_step(st, header) == if st.1.len() > 0 {
            (pactl_flush(st.0, st.1, st.2), Seq::<char>::empty(), Seq::<char>::empty())
        } else {
            st
        },
{
    reveal_strlit("Sink #");
    reveal_strlit("Source #");
    reveal_strlit("Name: ");
    reveal_strlit("Description: ");
    assert(header.len() > 0 && header[0] == 'S') by {
        if starts_with(header, "Sink #"@) {
            assert(header.subrange(0, 6)[0] == header[0]);
        } else {
            assert(header.subrange(0, 8)[0] == header[0]);
        }
    }
    lemma_trim_keeps_first(header);
    let t = trim(header);
    if starts_with(t, "Name: "@) {
        assert(t.subrange(0, 6)[0] == t[0]);
    }
    if starts_with(t, "Description: "@) {
        assert(t.subrange(0, 13)[0] == t[0]);
    }
}

proof fn lemma_pactl_name_step(
    st: (Seq<(Seq<char>, Seq<char>)>, Seq<char>, Seq<char>),
    name: Seq<char>,
)
    requires
        name.len() > 0,
        !is_ws(name[0]),
        !is_ws(name.last()),
        !contains(name, "Name: "@),
    ensures
        pactl_step(st, pactl_name_line(name)) == (st.0, name, st.2),
{
    reveal_strlit("Sink #");
    reveal_strlit("Source #");
    reveal_strlit("Name: ");
    let line = pactl_name_line(name);
    let body = "Name: "@ + name;
    assert(line =~= seq!['\t'] + body);
    assert(!is_block_header(line)) by {
        if starts_with(line, "Sink #"@) {
            assert(line.subrange(0, 6)[0] == line[0]);
        }
        if starts_with(line, "Source #"@) {
            assert(line.subrange(0, 8)[0] == line[0]);
        }
    }
    assert(body[0] == 'N');
    assert(body.last() == name.last());
    lemma_trim_indented('\t', body);
    assert(body.subrange(0, 6) =~= "Name: "@);
    lemma_replace_leading("Name: "@, name, seq![]);
    lemma_replace_absent(name, "Name: "@, seq![]);
    assert(Seq::<char>::empty() + name =~= name);
    lemma_trim_unpadded(name);
}

proof fn lemma_pactl_desc_step(
    st: (Seq<(Seq<char>, Seq<char>)>, Seq<char>, Seq<char>),
    desc: Seq<char>,
)
    requires
        desc.len() > 0,
        !is_ws(desc[0]),
        !is_ws(desc.last()),
        !contains(desc, "Description: "@),
    ensures
        pactl_step(st, pactl_desc_line(desc)) == (st.0, st.1, desc),
{
    reveal_strlit("Sink #");
    reveal_strlit("Source #");
    reveal_strlit("Name: ");
    reveal_strlit("Description: ");
    let line = pactl_desc_line(desc);
    let body = "Description: "@ + desc;
    assert(line =~= seq!['\t'] + body);
    assert(!is_block_header(line)) by {
        if starts_with(line, "Sink #"@) {
            assert(line.subrange(0, 6)[0] == line[0]);
        }
        if starts_with(line, "Source #"@) {
            assert(line.subrange(0, 8)[0] == line[0]);
        }
    }
    assert(body[0] == 'D');
    assert(body.last() == desc.last());
    lemma_trim_indented('\t', body);
    assert(!starts_with(body, "Name: "@)) by {
        if starts_with(body, "Name: "@) {
            assert(body.subrange(0, 6)[0] == body[0]);
        }
    }
    assert(body.subrange(0, 13) =~= "Description: "@);
    lemma_replace_leading("Description: "@, desc, seq![]);
    lemma_replace_absent(desc, "Description: "@, seq![]);
    assert(Seq::<char>::empty() + desc =~= desc);
    lemma_trim_unpadded(desc);
}

proof fn lemma_pactl_block_scan(
    ls: Seq<Seq<char>>,
    header: Seq<char>,
    name: Seq<char>,
    desc: Seq<char>,
)
    requires
        pactl_block_ok(header, name, desc),
        pactl_scan(ls).1.len() > 0 || pactl_scan(ls).2.len() == 0,
    ensures
        pactl_scan(ls + pactl_block(header, name, desc)) == (
            pactl_flush(pactl_scan(ls).0, pactl_scan(ls).1, pactl_scan(ls).2),
            name,
            desc,
        ),
{
    let st = pactl_scan(ls);
    let l1 = ls.push(header);
    let l2 = l1.push(pactl_name_line(name));
    lemma_pactl_scan_push(ls, header);
    lemma_pactl_header_closes(st, header);
    let s1 = pactl_scan(l1);
    assert(s1 == (pactl_flush(st.0, st.1, st.2), Seq::<char>::empty(), Seq::<char>::empty()));
    lemma_pactl_scan_push(l1, pactl_name_line(name));
    lemma_pactl_name_step(s1, name);
    if desc.len() > 0 {
        let l3 = l2.push(pactl_desc_line(desc));
        assert(ls + pactl_block(header, name, desc) =~= l3);
        lemma_pactl_scan_push(l2, pactl_desc_line(desc));
        lemma_pactl_desc_step(pactl_scan(l2), desc);
    } else {
        assert(ls + pactl_block(header, name, desc) =~= l2);
    }
}

/// The devices of the first `j` blocks, each its name and its description
/// (or its name again where the description is empty).
spec fn pactl_block_entries(names: Seq<Seq<char>>, descs: Seq<Seq<char>>, j: nat) -> Seq<
    (Seq<char>, Seq<char>),
> {
    Seq::new(j, |i: int| pactl_entry(names[i], descs[i]))
}

proof fn lemma_pactl_blocks_scan(
    headers: Seq<Seq<char>>,
    names: Seq<Seq<char>>,
    descs: Seq<Seq<char>>,
    k: nat,
)
    requires
        k <= headers.len(),
        headers.len() == names.len(),
        names.len() == descs.len(),
        forall|i: int|
            0 <= i < headers.len() ==> pactl_block_ok(#[trigger] headers[i], names[i], descs[i]),
    ensures
        k == 0 ==> pactl_scan(pactl_blocks(headers, names, descs, k)) == (
            Seq::<(Seq<char>, Seq<char>)>::empty(),
            Seq::<char>::empty(),
            Seq::<char>::empty(),
        ),
        k > 0 ==> pactl_scan(pactl_blocks(headers, names, descs, k)) == (
            pactl_block_entries(names, descs, (k - 1) as nat),
            names[k - 1],
            descs[k - 1],
        ),
    decreases k,
{
    if k > 0 {
        let j = (k - 1) as nat;
        lemma_pactl_blocks_scan(headers, names, descs, j);
        let ls = pactl_blocks(headers, names, descs, j);
        assert(pactl_block_ok(headers[j as int], names[j as int], descs[j as int]));
        if j > 0 {
            assert(names[j - 1].len() > 0) by {
                assert(pactl_block_ok(headers[j - 1], names[j - 1], descs[j - 1]));
            }
        }
        lemma_pactl_block_scan(ls, headers[j as int], names[j as int], descs[j as int]);
        let st = pactl_scan(ls);
        if j > 0 {
            assert(pactl_flush(st.0, st.1, st.2) =~= pactl_block_entries(names, descs, j));
        } else {
            assert(pactl_flush(st.0, st.1, st.2) =~= pactl_block_entries(names, descs, j));
        }
    }
}

/// A pactl listing made of `k` device blocks, each a `Sink #` or `Source #`
/// line, a `Name:` line and, where there is one, a `Description:` line,
/// gives exactly `k` devices, in the order of the blocks: the `i`-th has
/// the `i`-th name and the `i`-th description, or its name again where the
/// block has no description. Each header line closes the device before it,
/// whether it opens a sink or a source.
pub proof fn lemma_pactl_listing_blocks(
    listing: Seq<char>,
    headers: Seq<Seq<char>>,
    names: Seq<Seq<char>>,
    descs: Seq<Seq<char>>,
)
    requires
        headers.len() == names.len(),
        names.len() == descs.len(),
        forall|i: int|
            0 <= i < headers.len() ==> pactl_block_ok(#[trigger] headers[i], names[i], descs[i]),
        lines(listing) == pactl_blocks(headers, names, descs, headers.len()),
    ensures
        pactl_devices_of(listing).len() == headers.len(),
        forall|i: int|
            0 <= i < headers.len() ==> #[trigger] pactl_devices_of(listing)[i] == (
                names[i],
                if descs[i].len() == 0 {
                    names[i]
                } else {
                    descs[i]
                },
            ),
{
    let k = headers.len();
    lemma_pactl_blocks_scan(headers, names, descs, k);
    if k > 0 {
        assert(pactl_block_ok(headers[k - 1], names[k - 1], descs[k - 1]));
        let st = pactl_scan(lines(listing));
        assert(pactl_flush(st.0, st.1, st.2) =~= pactl_block_entries(names, descs, k));
    }
}

// ---------------------------------------------------------------------------
// lspci listings
// ---------------------------------------------------------------------------
/// The name of a graphics card from the part of its lspci line after the
/// PCI address: what follows the first `": "`, cut before the first
/// `" (rev"` and trimmed; the whole part where there is no `": "`; and
/// `Unknown GPU` where that comes out empty.
pub open spec fn gpu_name(desc: Seq<char>) -> Seq<char> {
    let n = match first_match(desc, ": "@) {
        Some(i) => {
            let full = desc.skip(i + 2);
            match first_match(full, " (rev"@) {
                Some(r) => trim(full.take(r)),
                None => full,
            }
        },
        None => desc,
    };
    if n.len() == 0 {
        "Unknown GPU"@
    } else {
        n
    }
}

/// The recorder's identifier of the card at a PCI address: `pci-0000_`
/// followed by the address with each `:` and `.` turned into `_`.
pub open spec fn gpu_pci_id(raw: Seq<char>) -> Seq<char> {
    "pci-0000_"@ + replace_all(replace_all(raw, ":"@, "_"@), "."@, "_"@)
}

/// Whether an lspci line describes a graphics card.
pub open spec fn is_gpu_line(l: Seq<char>) -> bool {
    contains(l, "VGA compatible controller"@) || contains(l, "3D controller"@)
}

/// The card that an lspci line describes, if it does: the line is split at
/// its first space into address and description.
pub open spec fn gpu_of_line(l: Seq<char>) -> Option<(Seq<char>, Seq<char>)> {
    if is_gpu_line(l) {
        match split_once(l, ' ') {
            Some((raw, desc)) => Some((gpu_pci_id(raw), gpu_name(desc))),
            None => None,
        }
    } else {
        None
    }
}

/// Where a card's description holds `": "`, its name comes from what
/// follows the first `": "`: it is a stretch of that text (never the text
/// before it), or `Unknown GPU` where nothing is left.
pub proof fn lemma_gpu_name_after_class(desc: Seq<char>, i: int)
    requires
        is_first_match(desc, ": "@, i),
    ensures
        gpu_name(desc) == "Unknown GPU"@ || contains(desc.skip(i + 2), gpu_name(desc)),
{
    reveal_strlit(": ");
    lemma_first_match(desc, ": "@, i);
    let full = desc.skip(i + 2);
    let n = match first_match(full, " (rev"@) {
        Some(r) => trim(full.take(r)),
        None => full,
    };
    if n.len() > 0 {
        match first_match(full, " (rev"@) {
            Some(r) => {
                lemma_first_match_found(full, " (rev"@);
                let (a, b) = lemma_trim_within(full.take(r));
                assert(full.subrange(a, a + (b - a)) =~= full.take(r).subrange(a, b));
                assert(matches_at(full, n, a));
            },
            None => {
                assert(full.subrange(0, full.len() as int) =~= full);
                assert(matches_at(full, n, 0));
            },
        }
    }
}

/// The name of a card described as `CLASS: NAME`, where the class holds no
/// `": "` and the name no `" (rev"`, is exactly `NAME`.
pub proof fn lemma_gpu_name_exact(class: Seq<char>, name: Seq<char>)
    requires
        !contains(class, ": "@),
        !contains(name, " (rev"@),
        name.len() > 0,
    ensures
        gpu_name(class + ": "@ + name) == name,
{
    reveal_strlit(": ");
    reveal_strlit(" (rev");
    let desc = class + ": "@ + name;
    let k = class.len() as int;
    assert(desc.subrange(k, k + 2) =~= ": "@);
    assert forall|j: int| 0 <= j < k implies !matches_at(desc, ": "@, j) by {
        if matches_at(desc, ": "@, j) {
            if j + 2 <= k {
                assert(class.subrange(j, j + 2) =~= desc.subrange(j, j + 2));
                assert(matches_at(class, ": "@, j));
            } else {
                assert(desc.subrange(j, j + 2)[1] == desc[j + 1]);
                assert(desc[k] == ':');
            }
        }
    }
    lemma_first_match(desc, ": "@, k);
    assert(desc.skip(k + 2) =~= name);
}

/// The name of a card described as `CLASS: NAME (rev ...)`, where the class
/// holds no `": "` and the name no `" (rev"`, is `NAME` trimmed, or
/// `Unknown GPU` where that is empty.
pub proof fn lemma_gpu_name_revision(class: Seq<char>, name: Seq<char>, rest: Seq<char>)
    requires
        !contains(class, ": "@),
        !contains(name, " (rev"@),
    ensures
        gpu_name(class + ": "@ + name + " (rev"@ + rest) == if trim(name).len() == 0 {
            "Unknown GPU"@
        } else {
            trim(name)
        },
{
    reveal_strlit(": ");
    reveal_strlit(" (rev");
    let after = name + " (rev"@ + rest;
    let desc = class + ": "@ + after;
    assert(desc =~= class + ": "@ + name + " (rev"@ + rest);
    let k = class.len() as int;
    assert(desc.subrange(k, k + 2) =~= ": "@);
    assert forall|j: int| 0 <= j < k implies !matches_at(desc, ": "@, j) by {
        if matches_at(desc, ": "@, j) {
            if j + 2 <= k {
                assert(class.subrange(j, j + 2) =~= desc.subrange(j, j + 2));
                assert(matches_at(class, ": "@, j));
            } else {
                assert(desc.subrange(j, j + 2)[1] == desc[j + 1]);
                assert(desc[k] == ':');
            }
        }
    }
    lemma_first_match(desc, ": "@, k);
    assert(desc.skip(k + 2) =~= after);
    let m = name.len() as int;
    assert(after.subrange(m, m + 5) =~= " (rev"@);
    assert forall|j: int| 0 <= j < m implies !matches_at(after, " (rev"@, j) by {
        if matches_at(after, " (rev"@, j) {
            if j + 5 <= m {
                assert(name.subrange(j, j + 5) =~= after.subrange(j, j + 5));
                assert(matches_at(name, " (rev"@, j));
            } else {
                assert(after.subrange(j, j + 5)[m - j] == after[m]);
                assert(after[m] == ' ');
            }
        }
    }
    lemma_first_match(after, " (rev"@, m);
    assert(after.take(m) =~= name);
}

/// An lspci line `ADDRESS CLASS: NAME` of a graphics card, with no space in
/// the address, no `": "` in the class and no `" (rev"` in the name, gives
/// the card at that address named exactly `NAME`.
pub proof fn lemma_gpu_line_exact(addr: Seq<char>, class: Seq<char>, name: Seq<char>)
    requires
        forall|j: int| 0 <= j < addr.len() ==> addr[j] != ' ',
        !contains(class, ": "@),
        !contains(name, " (rev"@),
        name.len() > 0,
        is_gpu_line(addr + seq![' '] + class + ": "@ + name),
    ensures
        gpu_of_line(addr + seq![' '] + class + ": "@ + name) == Some(
            (gpu_pci_id(addr), name),
        ),
{
    let l = addr + seq![' '] + class + ": "@ + name;
    let k = addr.len() as int;
    assert(l.subrange(k, k + 1) =~= seq![' ']);
    assert forall|j: int| 0 <= j < k implies !matches_at(l, seq![' '], j) by {
        if matches_at(l, seq![' '], j) {
            assert(l.subrange(j, j + 1)[0] == l[j]);
            assert(l[j] == addr[j]);
        }
    }
    lemma_first_match(l, seq![' '], k);
    assert(l.take(k) =~= addr);
    assert(l.skip(k + 1) =~= class + ": "@ + name);
    lemma_gpu_name_exact(class, name);
}

/// The graphics cards of an `lspci -nn` listing, in order.
pub open spec fn gpus_of(listing: Seq<char>) -> Seq<(Seq<char>, Seq<char>)> {
    gpus_in(lines(listing))
}

fn gpu_name_exec(desc: &Vec<char>) -> (r: Vec<char>)
    ensures
        r@ == gpu_name(desc@),
{
    let sep = chars_of(": ");
    let rev = chars_of(" (rev");
    proof {
        reveal_strlit(": ");
    }
    let n = match find(desc, &sep) {
        Some(i) => {
            assert(matches_at(desc@, sep@, i as int));
            assert(i + 2 <= desc.len());
            let full = slice_chars(desc, i + 2, desc.len());
            assert(full@ =~= desc@.skip(i + 2));
            match find(&full, &rev) {
                Some(k) => {
                    assert(matches_at(full@, rev@, k as int));
                    let cut = slice_chars(&full, 0, k);
                    assert(cut@ =~= full@.take(k as int));
                    trim_chars(&cut)
                },
                None => full,
            }
        },
        None => slice_chars(desc, 0, desc.len()),
    };
    assert(desc@.subrange(0, desc@.len() as int) =~= desc@);
    if n.len() == 0 {
        chars_of("Unknown GPU")
    } else {
        n
    }
}

fn gpu_pci_id_exec(raw: &Vec<char>) -> (r: Vec<char>)
    ensures
        r@ == gpu_pci_id(raw@),
{
    let colon = chars_of(":");
    let dot = chars_of(".");
    let under = chars_of("_");
    proof {
        reveal_strlit(":");
        reveal_strlit(".");
    }
    let a = replace_all_exec(raw, &colon, &under);
    let b = replace_all_exec(&a, &dot, &under);
    let mut r = chars_of("pci-0000_");
    let mut k: usize = 0;
    let ghost start = r@;
    while k < b.len()
        invariant
            k <= b.len(),
            r@ == start + b@.take(k as int),
        decreases b.len() - k,
    {
        r.push(b[k]);
        k = k + 1;
        assert(r@ =~= start + b@.take(k as int));
    }
    assert(b@.take(b.len() as int) =~= b@);
    r
}

/// The graphics cards that an `lspci -nn` listing describes.
pub fn gpus_from_lspci(listing: &str) -> (r: Vec<GpuDevice>)
    ensures
        views_are(r@, gpus_of(listing@)),
{
    let text = chars_of(listing);
    let ls = split_lines(&text);
    let vga = chars_of("VGA compatible controller");
    let ctl = chars_of("3D controller");
    let mut r: Vec<GpuDevice> = Vec::new();
    let ghost all = lines(listing@);
    let ghost f = |l: Seq<char>| gpu_of_line(l);
    let mut i: usize = 0;
    while i < ls.len()
        invariant
            i <= ls.len(),
            holds_seqs(ls@, all),
            all == lines(listing@),
            f == (|l: Seq<char>| gpu_of_line(l)),
            vga@ == "VGA compatible controller"@,
            ctl@ == "3D controller"@,
            views_are(r@, all.take(i as int).filter_map(f)),
        decreases ls.len() - i,
    {
        let line = &ls[i];
        assert(all.take(i + 1).drop_last() =~= all.take(i as int));
        assert(all.take(i + 1).last() == line@);
        if contains_exec(line, &vga) || contains_exec(line, &ctl) {
            match split_once_exec(line, ' ') {
                Some((raw, desc)) => {
                    let id = gpu_pci_id_exec(&raw);
                    let name = gpu_name_exec(&desc);
                    r.push(GpuDevice { pci_id: string_of(&id), name: string_of(&name) });
                },
                None => {},
            }
        }
        i = i + 1;
    }
    assert(all.take(ls.len() as int) =~= all);
    r
}


/// The graphics cards among lspci lines, in order.
pub open spec fn gpus_in(ls: Seq<Seq<char>>) -> Seq<(Seq<char>, Seq<char>)> {
    ls.filter_map(|l: Seq<char>| gpu_of_line(l))
}

/// Whether a card has an identifier starting with `pci-0000_` and a name.
pub open spec fn gpu_well_formed(g: (Seq<char>, Seq<char>)) -> bool {
    g.0.take(9) == "pci-0000_"@ && g.1.len() > 0
}

proof fn lemma_gpus_well_formed(ls: Seq<Seq<char>>)
    ensures
        forall|i: int| 0 <= i < gpus_in(ls).len() ==> gpu_well_formed(#[trigger] gpus_in(ls)[i]),
    decreases ls.len(),
{
    reveal_strlit("pci-0000_");
    reveal_strlit("Unknown GPU");
    if ls.len() > 0 {
        lemma_gpus_well_formed(ls.drop_last());
        let prev = gpus_in(ls.drop_last());
        match gpu_of_line(ls.last()) {
            Some(g) => {
                assert(gpus_in(ls) == prev + seq![g]);
                let (raw, desc) = split_once(ls.last(), ' ')->0;
                assert(g.0 == gpu_pci_id(raw));
                assert(g.0.take(9) =~= "pci-0000_"@);
                assert forall|i: int| 0 <= i < gpus_in(ls).len() implies gpu_well_formed(
                    #[trigger] gpus_in(ls)[i],
                ) by {
                    if i < prev.len() {
                        assert(gpus_in(ls)[i] == prev[i]);
                    }
                }
            },
            None => {
                assert(gpus_in(ls) == prev);
            },
        }
    }
}

/// Every graphics card of an lspci listing has an identifier that starts
/// with `pci-0000_` and a non-empty name.
pub proof fn lemma_gpus_well_formed_in(listing: Seq<char>)
    ensures
        forall|i: int|
            0 <= i < gpus_of(listing).len() ==> gpu_well_formed(#[trigger] gpus_of(listing)[i]),
{
    lemma_gpus_well_formed(lines(listing));
}

} // verus!
