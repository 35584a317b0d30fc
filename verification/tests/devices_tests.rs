use lapse::devices::{
    audio_devices_from_listing, gpus_from_lspci, monitors_from_listing, pactl_devices,
    pactl_list_args, AudioDevice, GpuDevice, MonitorDevice,
};

fn audio(name: &str, description: &str) -> AudioDevice {
    AudioDevice { name: name.to_string(), description: description.to_string() }
}

#[test]
fn monitors_are_split_at_the_first_bar() {
    let out = "DP-1|2560x1440\nHDMI-A-1|1920x1080|extra\nno bar here\n\n";
    let ms = monitors_from_listing(out);
    assert_eq!(
        ms,
        vec![
            MonitorDevice { name: "DP-1".into(), resolution: "2560x1440".into() },
            MonitorDevice { name: "HDMI-A-1".into(), resolution: "1920x1080|extra".into() },
        ]
    );
}

#[test]
fn monitors_of_empty_listing() {
    assert!(monitors_from_listing("").is_empty());
}

#[test]
fn monitor_lines_keep_carriage_return_only_at_the_end() {
    let ms = monitors_from_listing("A|1\r\nB|2\r");
    assert_eq!(ms[0].resolution, "1");
    assert_eq!(ms[1].resolution, "2\r");
}

#[test]
fn recorder_audio_listing_is_split_into_outputs_and_inputs() {
    let out = "default_output|Default output\n\
               default_input|Default input\n\
               alsa_output.pci.analog-stereo.monitor|Monitor of Built-in Audio\n\
               alsa_input.usb-mic|USB Microphone\n\
               bluez_sink.headset|Headset\n\
               broken line\n";
    let (outputs, inputs) = audio_devices_from_listing(out);
    assert_eq!(
        outputs,
        vec![
            audio("default_output", "Default output"),
            audio("alsa_output.pci.analog-stereo.monitor", "Monitor of Built-in Audio"),
        ]
    );
    assert_eq!(
        inputs,
        vec![audio("default_input", "Default input"), audio("alsa_input.usb-mic", "USB Microphone")]
    );
}

#[test]
fn a_name_with_both_words_is_an_input() {
    let (outputs, inputs) = audio_devices_from_listing("output_to_input|x");
    assert!(outputs.is_empty());
    assert_eq!(inputs, vec![audio("output_to_input", "x")]);
}

#[test]
fn pactl_blocks_become_devices() {
    let out = "Sink #0\n\
               \tState: SUSPENDED\n\
               \tName: alsa_output.pci-0000_00_1f.3.analog-stereo\n\
               \tDescription: Built-in Audio Analog Stereo\n\
               \tDriver: PipeWire\n\
               Sink #1\n\
               \tName: bluez_output.headset\n\
               \tDriver: PipeWire\n";
    let ds = pactl_devices(out);
    assert_eq!(
        ds,
        vec![
            audio("alsa_output.pci-0000_00_1f.3.analog-stereo", "Built-in Audio Analog Stereo"),
            audio("bluez_output.headset", "bluez_output.headset"),
        ]
    );
}

#[test]
fn pactl_sources_and_repeated_keys() {
    let out = "Source #5\n  Name:   mic  \n  Description: Name: odd Name: \nSource #6\n";
    let ds = pactl_devices(out);
    assert_eq!(ds, vec![audio("mic", "Name: odd Name:")]);
}

#[test]
fn pactl_without_devices() {
    assert!(pactl_devices("").is_empty());
    assert!(pactl_devices("Sink #0\n\tDescription: lonely\n").is_empty());
}

#[test]
fn pactl_arguments() {
    assert_eq!(pactl_list_args(true), vec!["list".to_string(), "sinks".to_string()]);
    assert_eq!(pactl_list_args(false), vec!["list".to_string(), "sources".to_string()]);
}

#[test]
fn lspci_graphics_cards() {
    let out = "00:02.0 VGA compatible controller [0300]: Intel Corporation UHD Graphics 620 [8086:5917] (rev 07)\n\
               00:1f.3 Audio device [0403]: Intel Corporation Sunrise Point-LP HD Audio [8086:9d71] (rev 21)\n\
               01:00.0 3D controller [0302]: NVIDIA Corporation GP108M [GeForce MX150] [10de:1d10] (rev a1)\n\
               02:00.0 VGA compatible controller nothing after\n\
               03:00.0 3D controller [0302]:  (rev 01)\n";
    let gs = gpus_from_lspci(out);
    assert_eq!(
        gs,
        vec![
            GpuDevice {
                pci_id: "pci-0000_00_02_0".into(),
                name: "Intel Corporation UHD Graphics 620 [8086:5917]".into()
            },
            GpuDevice {
                pci_id: "pci-0000_01_00_0".into(),
                name: "NVIDIA Corporation GP108M [GeForce MX150] [10de:1d10]".into()
            },
            GpuDevice {
                pci_id: "pci-0000_02_00_0".into(),
                name: "VGA compatible controller nothing after".into()
            },
            GpuDevice { pci_id: "pci-0000_03_00_0".into(), name: "Unknown GPU".into() },
        ]
    );
}

#[test]
fn lspci_without_graphics_cards() {
    assert!(gpus_from_lspci("00:1f.3 Audio device [0403]: Intel").is_empty());
    assert!(gpus_from_lspci("").is_empty());
    let gs = gpus_from_lspci("VGA compatible controller");
    assert_eq!(gs, vec![GpuDevice { pci_id: "pci-0000_VGA".into(), name: "compatible controller".into() }]);
}
