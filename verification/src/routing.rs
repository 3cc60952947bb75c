//! Where the handheld's sound goes while it is cast.
//!
//! The sound library reads a per-user file last, and the last default in it
//! wins, so that file selects the sink. While casting it points playback at
//! the kernel's loopback cable; afterwards whatever was there comes back.
use crate::text::{join_path, starts_with};
use vstd::prelude::*;

verus! {

/// What the file says while casting. The conversion plugin is there so that a
/// game asking for something other than 48 kHz stereo still works.
pub const ASOUNDRC_BODY: &'static str = "# rgsp-cast: routing playback into the kernel loopback while casting.\n# Removed automatically when casting stops.\npcm.!default {\n    type plug\n    slave.pcm \"hw:Loopback,0,0\"\n}\n";

/// The line that marks a file as ours. The hook that runs when a game starts
/// during a cast writes a shorter file that opens with the same line.
pub const OURS_MARKER: &'static str = "# rgsp-cast: routing playback into the kernel loopback while casting.\n";

/// Sink numbers of the system's settings library. Any but the default one
/// lights up the external-audio icon.
pub const AUDIO_SINK_DEFAULT: i32 = 0;

pub const AUDIO_SINK_USBDAC: i32 = 2;

/// The file was written by a cast, by the daemon or by the hook.
pub open spec fn is_ours(body: Seq<char>) -> bool {
    OURS_MARKER@.is_prefix_of(body)
}

/// What a release does to the file.
#[derive(Debug, PartialEq, Eq)]
pub enum Restore {
    /// Write this back.
    Write(String),
    /// Remove the file.
    Remove,
}

/// The text of a string that may be absent.
pub open spec fn text_of(t: Option<String>) -> Option<Seq<char>> {
    match t {
        Some(s) => Some(s@),
        None => None,
    }
}

/// What of the file has to outlive a cast: someone else's file as it is, and
/// nothing of ours.
pub open spec fn kept(file: Option<Seq<char>>) -> Option<Seq<char>> {
    match file {
        Some(body) => if is_ours(body) {
            None
        } else {
            Some(body)
        },
        None => None,
    }
}

/// What the file holds after a restore.
pub open spec fn file_after(r: Restore) -> Option<Seq<char>> {
    match r {
        Restore::Write(body) => Some(body@),
        Restore::Remove => None,
    }
}

/// The routing in force during a cast, and what was there before.
pub struct CastSink {
    previous: Option<String>,
}

impl CastSink {
    /// What a release will put back.
    pub closed spec fn before(self) -> Option<Seq<char>> {
        text_of(self.previous)
    }

    /// Engages the routing over what the file held, if it was there. A file of
    /// ours is the leftover of a cast that was killed, not the user's own: to
    /// restore it later would silence the speaker for good.
    pub fn engage(existing: Option<String>) -> (sink: CastSink)
        ensures
            sink.before() == kept(text_of(existing)),
    {
        match existing {
            Some(body) => {
                if starts_with(body.as_str(), OURS_MARKER) {
                    CastSink { previous: None }
                } else {
                    CastSink { previous: Some(body) }
                }
            },
            None => CastSink { previous: None },
        }
    }

    /// What the file has to say while the routing is engaged.
    pub fn body(&self) -> (b: &'static str)
        ensures
            b@ == ASOUNDRC_BODY@,
    {
        ASOUNDRC_BODY
    }

    /// Ends the routing: what was there before comes back, whatever the file
    /// holds now, and where there was nothing the file goes.
    pub fn release(self) -> (r: Restore)
        ensures
            file_after(r) == self.before(),
    {
        match self.previous {
            Some(body) => Restore::Write(body),
            None => Restore::Remove,
        }
    }
}

/// The file in the user data directory.
pub fn asoundrc_path(userdata: &str) -> (p: String)
    ensures
        p@ == crate::text::joined(userdata@, ".asoundrc"@),
{
    join_path(userdata, ".asoundrc")
}

/// A cast leaves no trace: a file of someone else's comes back exactly as it
/// was, where there was none there is none, and a leftover of ours is cleared,
/// so that one more cast changes nothing further.
pub proof fn law_a_cast_leaves_no_trace(file: Option<Seq<char>>)
    ensures
        (file matches Some(body) && !is_ours(body)) ==> kept(file) == file,
        (file matches Some(body) && is_ours(body)) ==> kept(file) is None,
        file is None ==> kept(file) is None,
        kept(kept(file)) == kept(file),
{
}

/// The file that the daemon itself writes is recognised as ours.
pub proof fn law_our_own_file_is_ours()
    ensures
        is_ours(ASOUNDRC_BODY@),
        kept(Some(ASOUNDRC_BODY@)) is None,
{
    reveal_strlit(
        "# rgsp-cast: routing playback into the kernel loopback while casting.\n# Removed automatically when casting stops.\npcm.!default {\n    type plug\n    slave.pcm \"hw:Loopback,0,0\"\n}\n",
    );
    reveal_strlit("# rgsp-cast: routing playback into the kernel loopback while casting.\n");
    let n = OURS_MARKER@.len() as int;
    assert(OURS_MARKER@ =~= ASOUNDRC_BODY@.subrange(0, n));
}

/// A place to look for the settings library.
#[derive(Debug, PartialEq, Eq)]
pub enum LibraryPlace {
    /// Wherever the loader finds it.
    Loader,
    /// In this directory.
    Directory(String),
}

pub open spec fn is_directory(p: LibraryPlace, dir: Seq<char>) -> bool {
    p matches LibraryPlace::Directory(d) && d@ == dir
}

/// The directory that the system's environment names.
pub open spec fn system_dir(sdcard: Seq<char>, platform: Seq<char>) -> Seq<char> {
    sdcard + "/.system/"@ + platform + "/lib"@
}

/// Where to look for the settings library, in order: the loader's own search
/// path, the directory that the environment names where it names one, then the
/// known device families.
pub fn library_places(sdcard: Option<String>, platform: Option<String>) -> (v: Vec<LibraryPlace>)
    ensures
        ({
            let named = sdcard is Some && platform is Some;
            let n = if named {
                1int
            } else {
                0int
            };
            &&& v@.len() == 4 + n
            &&& v@[0] == LibraryPlace::Loader
            &&& named ==> is_directory(v@[1], system_dir(sdcard->0@, platform->0@))
            &&& is_directory(v@[1 + n], "/mnt/SDCARD/.system/h700/lib"@)
            &&& is_directory(v@[2 + n], "/mnt/SDCARD/.system/tg5040/lib"@)
            &&& is_directory(v@[3 + n], "/mnt/SDCARD/.system/tg5050/lib"@)
        }),
{
    let mut v: Vec<LibraryPlace> = Vec::new();
    v.push(LibraryPlace::Loader);
    if let Some(s) = sdcard {
        if let Some(p) = platform {
            let mut dir: String = s.clone();
            dir.append("/.system/");
            dir.append(p.as_str());
            dir.append("/lib");
            v.push(LibraryPlace::Directory(dir));
        }
    }
    v.push(LibraryPlace::Directory(String::from_str("/mnt/SDCARD/.system/h700/lib")));
    v.push(LibraryPlace::Directory(String::from_str("/mnt/SDCARD/.system/tg5040/lib")));
    v.push(LibraryPlace::Directory(String::from_str("/mnt/SDCARD/.system/tg5050/lib")));
    v
}

/// The mixer library that has to be loaded first, from the same directory.
pub fn tinyalsa_path(dir: &str) -> (p: String)
    ensures
        p@ == dir@ + "/libtinyalsa.so.1"@,
{
    String::from_str(dir).concat("/libtinyalsa.so.1")
}

/// The settings library in a directory.
pub fn libmsettings_path(dir: &str) -> (p: String)
    ensures
        p@ == dir@ + "/libmsettings.so"@,
{
    String::from_str(dir).concat("/libmsettings.so")
}

/// Why a settings library that was found cannot be used.
#[derive(Clone, Copy, Debug, PartialEq, Eq, Structural)]
pub enum LibraryFault {
    NoInitSettings,
    NoSetAudioSink,
}

/// Whether a library that was found can be used: it needs both entry points.
/// The first one missing is the fault.
pub fn library_usable(has_init: bool, has_set_sink: bool) -> (r: Result<(), LibraryFault>)
    ensures
        match r {
            Ok(_) => has_init && has_set_sink,
            Err(LibraryFault::NoInitSettings) => !has_init,
            Err(LibraryFault::NoSetAudioSink) => has_init && !has_set_sink,
        },
{
    if !has_init {
        Err(LibraryFault::NoInitSettings)
    } else if !has_set_sink {
        Err(LibraryFault::NoSetAudioSink)
    } else {
        Ok(())
    }
}

/// A file is ours by its first line, whatever follows it; and what does not
/// open with a hash mark is someone else's, and kept.
pub proof fn law_the_first_line_makes_it_ours(rest: Seq<char>, body: Seq<char>)
    ensures
        is_ours(OURS_MARKER@ + rest),
        kept(Some(OURS_MARKER@ + rest)) is None,
        body.len() == 0 || body[0] != '#' ==> kept(Some(body)) == Some(body),
{
    reveal_strlit("# rgsp-cast: routing playback into the kernel loopback while casting.\n");
    let n = OURS_MARKER@.len() as int;
    assert(OURS_MARKER@ =~= (OURS_MARKER@ + rest).subrange(0, n));
    assert(OURS_MARKER@[0] == '#');
    if is_ours(body) {
        assert(body.subrange(0, n)[0] == body[0]);
    }
}

} // verus!
