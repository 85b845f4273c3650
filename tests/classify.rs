use seula::format::{classify, parse_plugin_format, PluginFormat};

#[test]
fn classify_vst3_instrument() {
    assert_eq!(classify("device:vst3:instr:1097826920Massive"), PluginFormat::VST3Instrument);
}

#[test]
fn classify_vst2_audio_fx() {
    assert_eq!(classify("device:vst:audiofx:XYZ"), PluginFormat::VST2AudioFx);
}

#[test]
fn classify_audio_unit_is_unclassified() {
    assert_eq!(classify("device:au:instr:XYZ"), PluginFormat::Unclassified);
}

#[test]
fn classify_other_prefixes() {
    assert_eq!(classify("device:vst3:audiofx:abc"), PluginFormat::VST3AudioFx);
    assert_eq!(classify("device:vst:instr:abc"), PluginFormat::VST2Instrument);
    assert_eq!(classify(""), PluginFormat::Unclassified);
    assert_eq!(classify("device:vst3:instr"), PluginFormat::Unclassified);
}

#[test]
fn parse_plugin_format_is_partial() {
    assert_eq!(parse_plugin_format("device:vst3:instr:x"), Some(PluginFormat::VST3Instrument));
    assert_eq!(parse_plugin_format("device:au:audiofx:x"), None);
}

#[test]
fn format_names() {
    assert_eq!(PluginFormat::VST3Instrument.name(), "VST3 Instrument");
    assert_eq!(PluginFormat::VST2AudioFx.name(), "VST2 Audio FX");
    assert_eq!(PluginFormat::Unclassified.name(), "Unclassified");
}
