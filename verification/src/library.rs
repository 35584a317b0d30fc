//! The clip library: which files are clips, the order they are shown in,
//! and where their thumbnails go.

use vstd::prelude::*;
use crate::config::{join, join_path};
use crate::text::{chars_of, owned, push_str, strings_are};

verus! {

broadcast use vstd::string::group_string_axioms;

/// Whether a file name has the extension `mp4`, as `Path::extension` reads
/// it: the name ends in `.mp4` and something comes before that dot.
pub open spec fn is_clip_name(name: Seq<char>) -> bool {
    name.len() > 4 && name.skip(name.len() - 4) == ".mp4"@
}

/// Whether a file name is that of a clip.
pub fn is_clip_file(name: &str) -> (b: bool)
    ensures
        b == is_clip_name(name@),
{
    let v = chars_of(name);
    let ext = chars_of(".mp4");
    proof {
        reveal_strlit(".mp4");
    }
    if v.len() <= 4 {
        return false;
    }
    let b = crate::text::matches_at_exec(&v, &ext, v.len() - 4);
    assert(v@.subrange(v.len() - 4, v.len() - 4 + 4) =~= v@.skip(v.len() - 4));
    b
}

/// Whether `a` comes before `b` in the order of `str::cmp`: by code point,
/// a proper prefix first.
pub open spec fn lex_lt(a: Seq<char>, b: Seq<char>) -> bool
    decreases a.len(),
{
    if a.len() == 0 {
        b.len() > 0
    } else if b.len() == 0 {
        false
    } else if a[0] != b[0] {
        (a[0] as int) < (b[0] as int)
    } else {
        lex_lt(a.drop_first(), b.drop_first())
    }
}

/// The order is a strict total order.
pub proof fn lemma_lex_total(a: Seq<char>, b: Seq<char>)
    ensures
        a == b || lex_lt(a, b) || lex_lt(b, a),
        !(lex_lt(a, b) && lex_lt(b, a)),
        !lex_lt(a, a),
    decreases a.len(),
{
    if a.len() == 0 {
        if b.len() == 0 {
            assert(a =~= b);
        }
    } else if b.len() == 0 {
        lemma_lex_total(a.drop_first(), a.drop_first());
    } else if a[0] == b[0] {
        lemma_lex_total(a.drop_first(), b.drop_first());
        if a.drop_first() == b.drop_first() {
            assert(a =~= seq![a[0]] + a.drop_first());
            assert(b =~= seq![b[0]] + b.drop_first());
        }
    } else {
        lemma_lex_total(a.drop_first(), a.drop_first());
    }
}

/// The order is transitive.
pub proof fn lemma_lex_trans(a: Seq<char>, b: Seq<char>, c: Seq<char>)
    requires
        lex_lt(a, b),
        lex_lt(b, c),
    ensures
        lex_lt(a, c),
    decreases a.len(),
{
    if a.len() > 0 && a[0] == b[0] && b[0] == c[0] {
        lemma_lex_trans(a.drop_first(), b.drop_first(), c.drop_first());
    }
}

/// Whether `a` comes before `b`.
pub fn lex_less(a: &Vec<char>, b: &Vec<char>) -> (r: bool)
    ensures
        r == lex_lt(a@, b@),
{
    let mut k: usize = 0;
    assert(a@.skip(0) =~= a@);
    assert(b@.skip(0) =~= b@);
    while k < a.len() && k < b.len() && a[k] == b[k]
        invariant
            k <= a.len(),
            k <= b.len(),
            lex_lt(a@, b@) == lex_lt(a@.skip(k as int), b@.skip(k as int)),
        decreases a.len() - k,
    {
        let ghost x = a@.skip(k as int);
        let ghost y = b@.skip(k as int);
        assert(x.drop_first() =~= a@.skip(k + 1));
        assert(y.drop_first() =~= b@.skip(k + 1));
        k = k + 1;
    }
    let ghost x = a@.skip(k as int);
    let ghost y = b@.skip(k as int);
    if k == a.len() {
        k < b.len()
    } else if k == b.len() {
        false
    } else {
        assert(x[0] == a@[k as int] && y[0] == b@[k as int]);
        a[k] < b[k]
    }
}

/// Whether `s` is in the order the library shows: later names first.
pub open spec fn sorted_desc(s: Seq<Seq<char>>) -> bool {
    forall|i: int, j: int| 0 <= i < j < s.len() ==> !lex_lt(#[trigger] s[i], #[trigger] s[j])
}

/// The views of the strings of `v`.
pub open spec fn views_of(v: Seq<String>) -> Seq<Seq<char>> {
    v.map_values(|s: String| s@)
}

/// The clips among the file names `files`, in their order.
pub open spec fn clip_names_in(files: Seq<Seq<char>>) -> Seq<Seq<char>> {
    files.filter(|n: Seq<char>| is_clip_name(n))
}

proof fn lemma_filter_push<A>(s: Seq<A>, x: A, p: spec_fn(A) -> bool)
    ensures
        s.push(x).filter(p) == if p(x) {
            s.filter(p).push(x)
        } else {
            s.filter(p)
        },
{
    reveal(Seq::filter);
    assert(s.push(x).drop_last() =~= s);
}

/// The clips among the file names of a folder, latest name first: each
/// name with the extension `mp4`, sorted in descending order.
pub fn clip_names(files: &Vec<String>) -> (r: Vec<String>)
    ensures
        sorted_desc(views_of(r@)),
        views_of(r@).to_multiset() == clip_names_in(views_of(files@)).to_multiset(),
{
    let mut r: Vec<String> = Vec::new();
    let mut i: usize = 0;
    let ghost names = views_of(files@);
    proof {
        reveal(Seq::filter);
        assert(names.take(0) =~= Seq::<Seq<char>>::empty());
        assert(views_of(r@) =~= Seq::<Seq<char>>::empty());
    }
    while i < files.len()
        invariant
            i <= files.len(),
            names == views_of(files@),
            sorted_desc(views_of(r@)),
            views_of(r@).to_multiset() == clip_names_in(names.take(i as int)).to_multiset(),
        decreases files.len() - i,
    {
        let name = &files[i];
        assert(names.take(i + 1) =~= names.take(i as int).push(name@));
        proof {
            lemma_filter_push(names.take(i as int), name@, |n: Seq<char>| is_clip_name(n));
        }
        if is_clip_file(name.as_str()) {
            insert_desc(&mut r, name.clone());
            assert(clip_names_in(names.take(i + 1)) == clip_names_in(names.take(i as int)).push(
                name@,
            ));
            proof {
                vstd::seq_lib::to_multiset_build(clip_names_in(names.take(i as int)), name@);
            }
        }
        i = i + 1;
    }
    assert(names.take(files.len() as int) =~= names);
    r
}

/// Inserts `x` into the descending `r`, before the first smaller name.
fn insert_desc(r: &mut Vec<String>, x: String)
    requires
        sorted_desc(views_of(old(r)@)),
    ensures
        sorted_desc(views_of(final(r)@)),
        views_of(final(r)@).to_multiset() == views_of(old(r)@).to_multiset().insert(x@),
{
    let xv = chars_of(x.as_str());
    let ghost old_views = views_of(r@);
    let mut p: usize = 0;
    while p < r.len()
        invariant
            p <= r.len(),
            r@ == old(r)@,
            old_views == views_of(r@),
            xv@ == x@,
            sorted_desc(old_views),
            forall|j: int| 0 <= j < p ==> !lex_lt(#[trigger] old_views[j], x@),
        ensures
            p <= r.len(),
            r@ == old(r)@,
            forall|j: int| 0 <= j < p ==> !lex_lt(#[trigger] old_views[j], x@),
            p < r.len() ==> lex_lt(old_views[p as int], x@),
        decreases r.len() - p,
    {
        let cur = chars_of(r[p].as_str());
        if lex_less(&cur, &xv) {
            break;
        }
        p = p + 1;
    }
    let ghost pos = p as int;
    let ghost before_lt = p < r.len();
    r.insert(p, x);
    let ghost nv = views_of(r@);
    assert(nv =~= old_views.insert(pos, x@));
    proof {
        assert forall|i: int, j: int| 0 <= i < j < nv.len() implies !lex_lt(
            #[trigger] nv[i],
            #[trigger] nv[j],
        ) by {
            if j < pos {
                assert(nv[i] == old_views[i] && nv[j] == old_views[j]);
            } else if j == pos {
                assert(nv[i] == old_views[i]);
            } else if i == pos {
                assert(nv[j] == old_views[j - 1]);
                assert(before_lt);
                if lex_lt(x@, old_views[j - 1]) {
                    if j - 1 == pos {
                        lemma_lex_total(x@, old_views[pos]);
                    } else {
                        assert(!lex_lt(old_views[pos], old_views[j - 1]));
                        lemma_lex_total(old_views[pos], old_views[j - 1]);
                        if old_views[pos] == old_views[j - 1] {
                            lemma_lex_total(x@, old_views[pos]);
                        } else {
                            lemma_lex_trans(old_views[j - 1], old_views[pos], x@);
                            lemma_lex_total(x@, old_views[j - 1]);
                        }
                    }
                }
            } else if i < pos {
                assert(nv[i] == old_views[i] && nv[j] == old_views[j - 1]);
            } else {
                assert(nv[i] == old_views[i - 1] && nv[j] == old_views[j - 1]);
            }
        }
        vstd::seq_lib::to_multiset_insert(old_views, pos, x@);
    }
}


/// Two descending lists of the same names are the same list: the order the
/// library shows does not depend on the order the folder lists its files.
pub proof fn lemma_sorted_desc_unique(a: Seq<Seq<char>>, b: Seq<Seq<char>>)
    requires
        sorted_desc(a),
        sorted_desc(b),
        a.to_multiset() == b.to_multiset(),
    ensures
        a == b,
    decreases a.len(),
{
    broadcast use vstd::seq_lib::group_to_multiset_ensures;
    broadcast use vstd::multiset::group_multiset_axioms;

    if a.len() == 0 {
        vstd::seq_lib::to_multiset_len(a);
        vstd::seq_lib::to_multiset_len(b);
        assert(b.to_multiset().len() == 0);
        assert(a =~= b);
    } else {
        vstd::seq_lib::to_multiset_len(a);
        vstd::seq_lib::to_multiset_len(b);
        assert(b.len() == a.len());
        assert(a.to_multiset().count(a[0]) > 0);
        assert(b.contains(a[0]));
        assert(b.to_multiset().count(b[0]) > 0);
        assert(a.contains(b[0]));
        let i = choose|i: int| 0 <= i < b.len() && b[i] == a[0];
        let k = choose|k: int| 0 <= k < a.len() && a[k] == b[0];
        if i > 0 {
            assert(!lex_lt(b[0], b[i]));
        }
        if k > 0 {
            assert(!lex_lt(a[0], a[k]));
        }
        lemma_lex_total(a[0], b[0]);
        assert(a[0] == b[0]);
        let a1 = a.remove(0);
        let b1 = b.remove(0);
        assert(a1 =~= a.drop_first());
        assert(b1 =~= b.drop_first());
        assert(a1.to_multiset() == a.to_multiset().remove(a[0]));
        assert(b1.to_multiset() == b.to_multiset().remove(b[0]));
        assert(sorted_desc(a1)) by {
            assert forall|x: int, y: int| 0 <= x < y < a1.len() implies !lex_lt(
                #[trigger] a1[x],
                #[trigger] a1[y],
            ) by {
                assert(a1[x] == a[x + 1] && a1[y] == a[y + 1]);
            }
        }
        assert(sorted_desc(b1)) by {
            assert forall|x: int, y: int| 0 <= x < y < b1.len() implies !lex_lt(
                #[trigger] b1[x],
                #[trigger] b1[y],
            ) by {
                assert(b1[x] == b[x + 1] && b1[y] == b[y + 1]);
            }
        }
        lemma_sorted_desc_unique(a1, b1);
        assert(a =~= seq![a[0]] + a1);
        assert(b =~= seq![b[0]] + b1);
    }
}

/// The folder that holds the thumbnails: `.thumbnails` in the save folder.
pub open spec fn thumbnail_dir_of(save_path: Seq<char>) -> Seq<char> {
    join_path(save_path, ".thumbnails"@)
}

/// Where the thumbnail of the clip `name` goes: `name.jpg` in the
/// `.thumbnails` folder of the save folder.
pub open spec fn thumbnail_of(save_path: Seq<char>, name: Seq<char>) -> Seq<char> {
    join_path(thumbnail_dir_of(save_path), name + ".jpg"@)
}

/// The folder that holds the thumbnails.
pub fn thumbnail_dir(save_path: &str) -> (r: String)
    ensures
        r@ == thumbnail_dir_of(save_path@),
{
    join(save_path, ".thumbnails")
}

/// The thumbnail file of the clip `name`.
pub fn thumbnail_path(save_path: &str, name: &str) -> (r: String)
    ensures
        r@ == thumbnail_of(save_path@, name@),
{
    let dir = thumbnail_dir(save_path);
    let mut file = String::new();
    push_str(&mut file, name);
    push_str(&mut file, ".jpg");
    assert(file@ =~= name@ + ".jpg"@);
    join(dir.as_str(), file.as_str())
}

/// A clip's thumbnail lies in the thumbnail folder: for every save folder
/// and every clip name (a file name, so not starting with `/`), the
/// thumbnail path is the thumbnail folder, a `/`, the name and `.jpg`.
pub proof fn lemma_thumbnail_in_thumbnail_dir(save_path: Seq<char>, name: Seq<char>)
    requires
        name.len() == 0 || name[0] != '/',
    ensures
        thumbnail_of(save_path, name) == thumbnail_dir_of(save_path) + seq!['/'] + name + ".jpg"@,
{
    reveal_strlit(".thumbnails");
    reveal_strlit(".jpg");
    let dir = thumbnail_dir_of(save_path);
    assert(dir.len() > 0 && dir.last() == 's') by {
        if save_path.len() > 0 && save_path.last() != '/' {
            assert(dir == save_path + seq!['/'] + ".thumbnails"@);
        } else {
            assert(dir == save_path + ".thumbnails"@);
        }
    }
    let file = name + ".jpg"@;
    assert(file.len() > 0 && file[0] != '/') by {
        if name.len() == 0 {
            assert(file[0] == '.');
        } else {
            assert(file[0] == name[0]);
        }
    }
    assert(dir + seq!['/'] + file =~= dir + seq!['/'] + name + ".jpg"@);
}

/// For a save folder written without a trailing `/`, the thumbnail folder
/// is `<save folder>/.thumbnails` and the thumbnail of `name` is
/// `<save folder>/.thumbnails/<name>.jpg`.
pub proof fn lemma_thumbnail_layout(save_path: Seq<char>, name: Seq<char>)
    requires
        save_path.len() > 0,
        save_path.last() != '/',
        name.len() == 0 || name[0] != '/',
    ensures
        thumbnail_dir_of(save_path) == save_path + "/.thumbnails"@,
        thumbnail_of(save_path, name) == save_path + "/.thumbnails/"@ + name + ".jpg"@,
{
    reveal_strlit(".thumbnails");
    reveal_strlit("/.thumbnails");
    reveal_strlit("/.thumbnails/");
    lemma_thumbnail_in_thumbnail_dir(save_path, name);
    assert(save_path + seq!['/'] + ".thumbnails"@ =~= save_path + "/.thumbnails"@);
    assert(save_path + "/.thumbnails"@ + seq!['/'] + name + ".jpg"@ =~= save_path
        + "/.thumbnails/"@ + name + ".jpg"@);
}

/// The arguments of `ffmpeg` that write the first frame of `video`, scaled
/// to 320x180, to `thumb`.
pub open spec fn thumbnail_args_of(video: Seq<char>, thumb: Seq<char>) -> Seq<Seq<char>> {
    seq!["-i"@, video, "-vframes"@, "1"@, "-s"@, "320x180"@, "-y"@, thumb]
}

/// The arguments of `ffmpeg` that make a thumbnail.
pub fn thumbnail_args(video: &str, thumb: &str) -> (r: Vec<String>)
    ensures
        strings_are(r@, thumbnail_args_of(video@, thumb@)),
{
    let mut r: Vec<String> = Vec::new();
    r.push(owned("-i"));
    r.push(owned(video));
    r.push(owned("-vframes"));
    r.push(owned("1"));
    r.push(owned("-s"));
    r.push(owned("320x180"));
    r.push(owned("-y"));
    r.push(owned(thumb));
    r
}

} // verus!
