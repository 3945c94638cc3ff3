//! The music page: what the player plays.
use vstd::prelude::*;
use vstd::string::*;

use crate::layout::{native_of, screen_to_native_rect, NativeRect};
use crate::scene::{centered, filled, label, Font, Picture, Scene, Shape, BLACK, WHITE};
use crate::text::{dec, dec_padded, held, hold, own, push_dec, push_dec_padded};

verus! {

/// Where the state of the player is fetched from.
pub const PATH: &'static str = "/api/now-playing";

/// Where the cover of what is played is fetched from.
pub const COVER_PATH: &'static str = "/api/now-playing/cover";

/// What the player plays.
pub struct NowPlaying {
    pub track: String,
    pub artist: String,
    pub album: String,
    pub is_playing: bool,
    pub progress_secs: Option<u32>,
    pub duration_secs: Option<u32>,
}

/// What the page shows.
pub enum MusicView {
    Loading,
    Playing(NowPlaying),
    Idle,
    Error,
}

/// Whether a byte is white space of ASCII.
pub open spec fn blank(b: u8) -> bool {
    b == 0x20 || b == 0x09 || b == 0x0a || b == 0x0c || b == 0x0d
}

/// Bytes without the white space among them.
pub open spec fn squeezed(s: Seq<u8>) -> Seq<u8>
    decreases s.len(),
{
    if s.len() == 0 {
        seq![]
    } else if blank(s.last()) {
        squeezed(s.drop_last())
    } else {
        squeezed(s.drop_last()).push(s.last())
    }
}

/// What a response says, before it is decoded.
#[derive(Clone, Copy, Debug, PartialEq, Eq, Structural)]
pub enum Payload {
    /// Nothing at all.
    Missing,
    /// That nothing is playing.
    Null,
    /// Something that is to be decoded.
    Json,
}

/// What a response says: with white space left out, nothing, `null`, or
/// something else.
pub open spec fn payload_of(body: Seq<u8>) -> Payload {
    if squeezed(body).len() == 0 {
        Payload::Missing
    } else if squeezed(body) == seq![0x6eu8, 0x75u8, 0x6cu8, 0x6cu8] {
        Payload::Null
    } else {
        Payload::Json
    }
}

/// What a response says, before it is decoded.
pub fn payload(body: &[u8]) -> (r: Payload)
    ensures
        r == payload_of(body@),
{
    let mut kept: Vec<u8> = Vec::new();
    let mut i: usize = 0;
    assert(body@.take(0) =~= Seq::<u8>::empty());
    while i < body.len()
        invariant
            i <= body@.len(),
            kept@ == squeezed(body@.take(i as int)),
        decreases body@.len() - i,
    {
        let b: u8 = body[i];
        assert(body@.take(i + 1).drop_last() =~= body@.take(i as int));
        if !(b == 0x20 || b == 0x09 || b == 0x0a || b == 0x0c || b == 0x0d) {
            kept.push(b);
        }
        i = i + 1;
    }
    assert(body@.take(body@.len() as int) =~= body@);
    if kept.len() == 0 {
        Payload::Missing
    } else if kept.len() == 4 && kept[0] == 0x6e && kept[1] == 0x75 && kept[2] == 0x6c && kept[3]
        == 0x6c {
        assert(kept@ =~= seq![0x6eu8, 0x75u8, 0x6cu8, 0x6cu8]);
        Payload::Null
    } else {
        Payload::Json
    }
}

/// The view of a response, given what it decodes to, where it does.
pub fn parse(body: &[u8], decoded: Option<NowPlaying>) -> (r: MusicView)
    ensures
        r == match payload_of(body@) {
            Payload::Missing => MusicView::Error,
            Payload::Null => MusicView::Idle,
            Payload::Json => match decoded {
                Some(np) => MusicView::Playing(np),
                None => MusicView::Error,
            },
        },
{
    match payload(body) {
        Payload::Missing => MusicView::Error,
        Payload::Null => MusicView::Idle,
        Payload::Json => match decoded {
            Some(np) => MusicView::Playing(np),
            None => MusicView::Error,
        },
    }
}

/// Minutes and seconds.
pub open spec fn clock_text(secs: int) -> Seq<char> {
    dec(secs / 60) + ":"@ + dec_padded(secs % 60, 2)
}

/// Writes minutes and seconds.
pub fn write_clock(out: &mut String, secs: u32)
    ensures
        final(out)@ == old(out)@ + clock_text(secs as int),
{
    let ghost before = out@;
    push_dec(out, (secs / 60) as u64);
    out.append(":");
    push_dec_padded(out, (secs % 60) as u64, 2);
    assert(out@ =~= before + clock_text(secs as int));
}

/// Minutes and seconds, as far as there is room for them.
pub open spec fn clock_shown(secs: int) -> Seq<char> {
    held(clock_text(secs), 8)
}

/// Whether the player plays, and how far it is, as far as there is room.
pub open spec fn state_text(np: NowPlaying) -> Seq<char> {
    held(
        (if np.is_playing {
            "playing"@
        } else {
            "paused"@
        }) + if np.progress_secs is Some && np.duration_secs is Some {
            "   "@ + clock_shown(np.progress_secs->0 as int) + " / "@ + clock_shown(
                np.duration_secs->0 as int,
            )
        } else {
            seq![]
        },
        24,
    )
}

/// Minutes and seconds, as far as there is room for them.
fn clock_label(secs: u32) -> (r: String)
    ensures
        r@ == clock_shown(secs as int),
{
    let mut out: String = String::new();
    write_clock(&mut out, secs);
    assert(out@ =~= clock_text(secs as int));
    hold(out, 8)
}

/// Whether the player plays, and how far it is.
fn state_label(np: &NowPlaying) -> (r: String)
    ensures
        r@ == state_text(*np),
{
    let state: &str = if np.is_playing {
        "playing"
    } else {
        "paused"
    };
    let mut line: String = own(state);
    if let (Some(p), Some(d)) = (np.progress_secs, np.duration_secs) {
        line.append("   ");
        line.append(clock_label(p).as_str());
        line.append(" / ");
        line.append(clock_label(d).as_str());
        assert(line@ =~= state@ + ("   "@ + clock_shown(p as int) + " / "@ + clock_shown(
            d as int,
        )));
    } else {
        assert(line@ =~= state@ + Seq::<char>::empty());
    }
    hold(line, 24)
}

/// What is under the title.
pub open spec fn body_picture(view: MusicView) -> Picture {
    seq![filled(20, 200, 500, 360, WHITE)] + match view {
        MusicView::Loading => seq![centered("loading..."@, 270, 320, Font::Body, 4)],
        MusicView::Idle => seq![centered("nothing playing"@, 270, 320, Font::Bold, BLACK)],
        MusicView::Error => seq![centered("could not reach server"@, 270, 320, Font::Body, 4)],
        MusicView::Playing(np) => seq![
            label("Track"@, 40, 240, Font::Body, 4),
            label(np.track@, 40, 266, Font::Bold, BLACK),
            label("Artist"@, 40, 320, Font::Body, 4),
            label(np.artist@, 40, 346, Font::Bold, BLACK),
            label("Album"@, 40, 400, Font::Body, 4),
            label(np.album@, 40, 426, Font::Bold, BLACK),
            label(state_text(np), 40, 490, Font::Body, 4),
        ],
    }
}

/// The part of the panel under the title.
pub fn body_native_rect() -> (r: NativeRect)
    ensures
        r == native_of(20, 200, 500, 360),
{
    screen_to_native_rect(20, 200, 500, 360)
}

/// Paints what is under the title.
pub fn draw_body(scene: &mut Scene, view: &MusicView)
    ensures
        final(scene)@ == old(scene)@ + body_picture(*view),
{
    let ghost start = scene@;
    scene.fill(20, 200, 500, 360, WHITE);
    match view {
        MusicView::Loading => scene.center("loading...", 270, 320, Font::Body, 4),
        MusicView::Idle => scene.center("nothing playing", 270, 320, Font::Bold, BLACK),
        MusicView::Error => scene.center("could not reach server", 270, 320, Font::Body, 4),
        MusicView::Playing(np) => {
            scene.text("Track", 40, 240, Font::Body, 4);
            scene.text(np.track.as_str(), 40, 266, Font::Bold, BLACK);
            scene.text("Artist", 40, 320, Font::Body, 4);
            scene.text(np.artist.as_str(), 40, 346, Font::Bold, BLACK);
            scene.text("Album", 40, 400, Font::Body, 4);
            scene.text(np.album.as_str(), 40, 426, Font::Bold, BLACK);
            let line: String = state_label(np);
            scene.text(line.as_str(), 40, 490, Font::Body, 4);
        },
    }
    assert(scene@ =~= start + body_picture(*view));
}

/// The page.
pub open spec fn screen_picture(view: MusicView) -> Picture {
    seq![Shape::BackButton, centered("Music"@, 270, 120, Font::Bold, BLACK)] + body_picture(view)
}

/// Paints the page.
pub fn draw_screen(scene: &mut Scene, view: &MusicView)
    ensures
        final(scene)@ == old(scene)@ + screen_picture(*view),
{
    let ghost start = scene@;
    scene.back_button();
    scene.center("Music", 270, 120, Font::Bold, BLACK);
    draw_body(scene, view);
    assert(scene@ =~= start + screen_picture(*view));
}

/// White space between the parts of a body does not count, wherever it stands.
pub proof fn law_blanks_do_not_count(a: Seq<u8>, b: Seq<u8>)
    ensures
        squeezed(a + b) == squeezed(a) + squeezed(b),
    decreases b.len(),
{
    if b.len() == 0 {
        assert(a + b =~= a);
        assert(squeezed(a) + squeezed(b) =~= squeezed(a));
    } else {
        law_blanks_do_not_count(a, b.drop_last());
        assert((a + b).drop_last() =~= a + b.drop_last());
        assert((a + b).last() == b.last());
        assert(squeezed(a + b) =~= squeezed(a) + squeezed(b));
    }
}

/// Of one byte, a space, a tab, the end of a line or of a page leaves nothing;
/// any other is kept.
pub proof fn law_other_bytes_count(b: u8)
    ensures
        b == 9 || b == 10 || b == 12 || b == 13 || b == 32 ==> squeezed(seq![b]).len() == 0,
        b != 9 && b != 10 && b != 12 && b != 13 && b != 32 ==> squeezed(seq![b]) == seq![b],
{
    assert(seq![b].drop_last() =~= Seq::<u8>::empty());
    assert(squeezed(Seq::<u8>::empty()) =~= Seq::<u8>::empty());
    assert(Seq::<u8>::empty().push(b) =~= seq![b]);
}

/// What a body holds: nothing where only white space is left of it, no track
/// where `null` is left, and otherwise a track.
pub proof fn law_payload_goes_by_what_counts(body: Seq<u8>)
    ensures
        payload_of(body) is Missing <==> squeezed(body).len() == 0,
        payload_of(body) is Null <==> squeezed(body) == seq![0x6eu8, 0x75u8, 0x6cu8, 0x6cu8],
{
}

/// A position is told in minutes and two digits of seconds.
pub proof fn law_position_is_told(m: int, s: int)
    requires
        0 <= m,
        0 <= s < 60,
    ensures
        clock_text(60 * m + s) == dec(m) + ":"@ + dec_padded(s, 2),
        clock_shown(60 * m + s) == held(dec(m) + ":"@ + dec_padded(s, 2), 8),
{
    assert((60 * m + s) / 60 == m);
    assert((60 * m + s) % 60 == s);
}

/// A track is shown with its name, its artist and its album whole, and below
/// them whether it plays, with its position and length where both are known.
pub proof fn law_track_is_shown_whole(np: NowPlaying)
    ensures
        ({
            let shown = body_picture(MusicView::Playing(np));
            let word = if np.is_playing {
                "playing"@
            } else {
                "paused"@
            };
            &&& shown.len() == 8
            &&& shown[2] == label(np.track@, 40, 266, Font::Bold, BLACK)
            &&& shown[4] == label(np.artist@, 40, 346, Font::Bold, BLACK)
            &&& shown[6] == label(np.album@, 40, 426, Font::Bold, BLACK)
            &&& np.progress_secs is Some && np.duration_secs is Some ==> shown[7] == label(
                held(
                    word + "   "@ + clock_shown(np.progress_secs->0 as int) + " / "@
                        + clock_shown(np.duration_secs->0 as int),
                    24,
                ),
                40,
                490,
                Font::Body,
                4,
            )
            &&& np.progress_secs is None || np.duration_secs is None ==> shown[7] == label(
                held(word, 24),
                40,
                490,
                Font::Body,
                4,
            )
        }),
        body_picture(MusicView::Idle).last() == centered(
            "nothing playing"@,
            270,
            320,
            Font::Bold,
            BLACK,
        ),
        body_picture(MusicView::Error).last() == centered(
            "could not reach server"@,
            270,
            320,
            Font::Body,
            4,
        ),
        body_picture(MusicView::Loading).last() == centered(
            "loading..."@,
            270,
            320,
            Font::Body,
            4,
        ),
{
    let word = if np.is_playing {
        "playing"@
    } else {
        "paused"@
    };
    if np.progress_secs is Some && np.duration_secs is Some {
        let p = clock_shown(np.progress_secs->0 as int);
        let d = clock_shown(np.duration_secs->0 as int);
        assert(word + ("   "@ + p + " / "@ + d) =~= word + "   "@ + p + " / "@ + d);
    } else {
        assert(word + seq![] =~= word);
    }
}

/// The page is its title, the way back and what it has to show.
pub proof fn law_music_page_shows_the_track(view: MusicView)
    ensures
        screen_picture(view)[0] is BackButton,
        screen_picture(view)[1] == centered("Music"@, 270, 120, Font::Bold, BLACK),
        screen_picture(view).skip(2) == body_picture(view),
{
    assert(screen_picture(view).skip(2) =~= body_picture(view));
}

} // verus!
