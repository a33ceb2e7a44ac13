use maolan_editor::alsa_scan::{
    alsa_device_id, alsa_device_label, alsa_devices, parse_alsa_card_labels, parse_alsa_pcm, AlsaPcmEntry, PcmCaps,
    PcmDirection,
};

const CARDS: &str = " 0 [PCH            ]: HDA-Intel - HDA Intel PCH\n                      HDA Intel PCH at 0xf7f00000 irq 32\n 1 [USB            ]: USB-Audio - Scarlett 2i2\n 7 [Broken]:   \n";

const PCM: &str = "00-00: ALC887-VD Analog : ALC887-VD Analog : playback 1 : capture 1\n00-01: ALC887-VD Digital : ALC887-VD Digital : playback 1\n01-00: USB Audio : USB Audio : playback 1 : capture 1\n02-03: : : capture 1\nnot a device line\n";

#[test]
fn card_labels_come_from_named_cards() {
    let labels = parse_alsa_card_labels(CARDS);
    assert_eq!(
        labels,
        vec![(0, String::from("HDA-Intel - HDA Intel PCH")), (1, String::from("USB-Audio - Scarlett 2i2"))]
    );
}

#[test]
fn pcm_entries_follow_the_direction() {
    let playback = parse_alsa_pcm(PCM, PcmDirection::Playback);
    let ids: Vec<(u32, u32, String)> = playback.iter().map(|e| (e.card, e.dev, e.device_name.clone())).collect();
    assert_eq!(
        ids,
        vec![
            (0, 0, String::from("ALC887-VD Analog")),
            (0, 1, String::from("ALC887-VD Digital")),
            (1, 0, String::from("USB Audio")),
        ]
    );
    let capture = parse_alsa_pcm(PCM, PcmDirection::Capture);
    assert_eq!(capture.len(), 3);
    assert_eq!((capture[2].card, capture[2].dev, capture[2].device_name.as_str()), (2, 3, ""));
}

#[test]
fn device_ids_and_labels() {
    let labels = parse_alsa_card_labels(CARDS);
    let named = AlsaPcmEntry { card: 1, dev: 0, device_name: String::from("USB Audio") };
    assert_eq!(alsa_device_id(&named), "hw:1,0");
    assert_eq!(alsa_device_label(&labels, &named), "USB-Audio - Scarlett 2i2 - USB Audio (hw:1,0)");
    let unnamed = AlsaPcmEntry { card: 2, dev: 3, device_name: String::new() };
    assert_eq!(alsa_device_label(&labels, &unnamed), "Card 2 (hw:2,3)");
}

#[test]
fn later_card_lines_override_earlier_ones() {
    let labels = parse_alsa_card_labels("0 [A]: first\n0 [A]: second\n");
    let entry = AlsaPcmEntry { card: 0, dev: 0, device_name: String::new() };
    assert_eq!(alsa_device_label(&labels, &entry), "second (hw:0,0)");
}

#[test]
fn alsa_devices_sort_and_fill_in_rates() {
    let labels = parse_alsa_card_labels(CARDS);
    let entries = parse_alsa_pcm(PCM, PcmDirection::Playback);
    let caps = vec![
        PcmCaps { bits: vec![16, 32], sample_rates: vec![48_000, 44_100] },
        PcmCaps { bits: vec![16], sample_rates: Vec::new() },
        PcmCaps { bits: vec![24], sample_rates: vec![96_000] },
    ];
    let devices = alsa_devices(&entries, &labels, caps, PcmDirection::Playback);
    let ids: Vec<&str> = devices.iter().map(|d| d.id.as_str()).collect();
    assert_eq!(ids, vec!["hw:0,0", "hw:0,1", "hw:1,0"]);
    assert_eq!(devices[0].supported_bits, vec![32, 16]);
    assert_eq!(devices[0].supported_sample_rates, vec![44_100, 48_000]);
    assert_eq!(devices[1].supported_sample_rates.len(), 12);
    assert!(devices.iter().all(|d| d.supports_output && !d.supports_input));
}
