//! Sound routing over a file that is played by an `Option<String>`.
use rgsp_cast::routing::{
    asoundrc_path, library_places, library_usable, libmsettings_path, tinyalsa_path, CastSink,
    LibraryFault, LibraryPlace, Restore, ASOUNDRC_BODY,
};

fn release(sink: CastSink, file: &mut Option<String>) {
    *file = match sink.release() {
        Restore::Write(body) => Some(body),
        Restore::Remove => None,
    };
}

fn engage(file: &mut Option<String>) -> CastSink {
    let sink = CastSink::engage(file.clone());
    *file = Some(sink.body().to_string());
    sink
}

#[test]
fn engage_writes_the_loopback_default_and_release_restores() {
    let mut file = None;
    let sink = engage(&mut file);
    let written = file.clone().expect("asoundrc written");
    assert!(written.contains("hw:Loopback,0,0"));
    assert!(written.contains("pcm.!default"));
    release(sink, &mut file);
    assert!(file.is_none(), "release removes the file when there was none before");
}

#[test]
fn release_restores_a_preexisting_asoundrc() {
    let original = "pcm.!default { type plug slave.pcm { type bluealsa } }\n";
    let mut file = Some(original.to_string());
    let sink = engage(&mut file);
    assert!(file.as_ref().unwrap().contains("Loopback"));
    release(sink, &mut file);
    assert_eq!(file.as_deref(), Some(original));
}

#[test]
fn repeated_engage_release_cycles() {
    let mut file = None;
    let sink1 = engage(&mut file);
    let written1 = file.clone();
    assert!(written1.as_ref().unwrap().contains("hw:Loopback,0,0"));
    release(sink1, &mut file);
    assert!(file.is_none(), "first release: file removed when there was none before");

    let sink2 = engage(&mut file);
    assert!(file.as_ref().unwrap().contains("hw:Loopback,0,0"));
    assert_eq!(written1, file, "second cycle: written content matches first cycle");
    release(sink2, &mut file);
    assert!(file.is_none(), "second release: file removed when there was none before");
}

#[test]
fn release_restores_after_the_pre_launch_hook_rewrote_the_file() {
    let mut file = None;
    let sink = engage(&mut file);
    file = Some(
        "# rgsp-cast: routing playback into the kernel loopback while casting.\n\
         pcm.!default {\n    type plug\n    slave.pcm \"hw:Loopback,0,0\"\n}\n"
            .to_string(),
    );
    assert!(file.is_some());
    release(sink, &mut file);
    assert!(
        file.is_none(),
        "the hook's copy is still ours and must be cleaned up, or the speaker stays silent"
    );
}

#[test]
fn a_leftover_config_is_not_snapshotted_as_the_users_own() {
    // The aftermath of a kill in the middle of a cast.
    let mut file = Some(ASOUNDRC_BODY.to_string());
    let sink = engage(&mut file);
    release(sink, &mut file);
    assert!(
        file.is_none(),
        "a leftover of our own must be cleared, not restored as if the user had put it there"
    );
}

#[test]
fn a_leftover_of_the_hook_is_cleared_too() {
    let mut file = Some(
        "# rgsp-cast: routing playback into the kernel loopback while casting.\npcm.x\n".to_string(),
    );
    let sink = engage(&mut file);
    release(sink, &mut file);
    assert!(file.is_none());
}

#[test]
fn a_foreign_config_is_preserved_across_a_cast() {
    let foreign = "pcm.!default { type plug slave.pcm \"bluealsa\" }\n";
    let mut file = Some(foreign.to_string());
    let sink = engage(&mut file);
    release(sink, &mut file);
    assert_eq!(
        file.as_deref(),
        Some(foreign),
        "someone else's config must come back exactly as it was"
    );
}

#[test]
fn the_settings_library_is_looked_for_in_order() {
    let dir = |d: &str| LibraryPlace::Directory(d.to_string());
    assert_eq!(
        library_places(Some("/sd".to_string()), Some("p".to_string())),
        vec![
            LibraryPlace::Loader,
            dir("/sd/.system/p/lib"),
            dir("/mnt/SDCARD/.system/h700/lib"),
            dir("/mnt/SDCARD/.system/tg5040/lib"),
            dir("/mnt/SDCARD/.system/tg5050/lib")
        ]
    );
    assert_eq!(library_places(None, Some("p".to_string())).len(), 4);
    assert_eq!(library_places(Some("s".to_string()), None).len(), 4);
    assert_eq!(tinyalsa_path("/d"), "/d/libtinyalsa.so.1");
    assert_eq!(libmsettings_path("/d"), "/d/libmsettings.so");
    assert_eq!(asoundrc_path("/u"), "/u/.asoundrc");
}

#[test]
fn a_library_needs_both_entry_points() {
    assert_eq!(library_usable(true, true), Ok(()));
    assert_eq!(library_usable(false, true), Err(LibraryFault::NoInitSettings));
    assert_eq!(library_usable(false, false), Err(LibraryFault::NoInitSettings));
    assert_eq!(library_usable(true, false), Err(LibraryFault::NoSetAudioSink));
}
