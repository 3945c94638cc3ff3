//! The LoRa page: sending what was typed, the lists of messages, scrolling the
//! log, and when the radio is on.
use vstd::prelude::*;
use vstd::string::*;
use vstd::utf8::*;

use super::nav::{Nav, Screen};
use crate::chatlog::{last_of, RECV_MAX};
use crate::pages::lora::{last_scroll, log_rows, recv_scroll_max, Tab, LIST_MAX, RECV_ROWS};
use crate::text::{dec, dec_signed, own, push_dec, push_int, texts};

verus! {

/// The state of the page.
pub struct LoraPage {
    pub tab: Tab,
    pub message: String,
    pub status: String,
    pub sent: Vec<String>,
    pub received: Vec<String>,
    /// The keys of the received messages, side by side with them.
    pub keys: Vec<u64>,
    /// The row of the log that is shown first.
    pub scroll: usize,
    /// Whether a touch of the delete button deletes the log.
    pub clear_armed: bool,
}

/// What is known of the page.
#[verifier::ext_equal]
pub struct LoraView {
    pub tab: Tab,
    pub message: Seq<char>,
    pub status: Seq<char>,
    pub sent: Seq<Seq<char>>,
    pub received: Seq<Seq<char>>,
    pub keys: Seq<u64>,
    pub scroll: int,
    pub clear_armed: bool,
}

impl View for LoraPage {
    type V = LoraView;

    open spec fn view(&self) -> LoraView {
        LoraView {
            tab: self.tab,
            message: self.message@,
            status: self.status@,
            sent: texts(self.sent@),
            received: texts(self.received@),
            keys: self.keys@,
            scroll: self.scroll as int,
            clear_armed: self.clear_armed,
        }
    }
}

/// What came of sending a message.
pub enum Sending {
    /// The radio took it.
    Sent,
    /// The radio refused it, for this reason.
    Refused(String),
    /// There is no radio.
    NoRadio,
}

/// The page after SEND: the message goes to the list of sent ones with the
/// time in front, where the radio took it.
pub open spec fn after_send(p: LoraView, sending: Sending, stamp: Seq<char>) -> LoraView {
    if p.message.len() == 0 {
        LoraView { status: "nothing to send"@, ..p }
    } else {
        match sending {
            Sending::Sent => LoraView {
                status: "sent "@ + dec(encode_utf8(p.message).len() as int) + " bytes"@,
                sent: last_of(p.sent.push(stamp + p.message), LIST_MAX as int),
                message: seq![],
                ..p
            },
            Sending::Refused(e) => LoraView { status: "tx error: "@ + e@, ..p },
            Sending::NoRadio => LoraView { status: "radio not ready"@, ..p },
        }
    }
}

/// The page after a message was received: it goes to the log with the time in
/// front, and the log keeps the latest.
pub open spec fn after_receive(
    p: LoraView,
    key: u64,
    stamp: Seq<char>,
    text: Seq<char>,
    bytes: int,
    rssi: int,
) -> LoraView {
    LoraView {
        received: last_of(p.received.push(stamp + text), RECV_MAX as int),
        keys: last_of(p.keys.push(key), RECV_MAX as int),
        status: "received "@ + dec(bytes) + " bytes ("@ + dec_signed(rssi) + " dBm)"@,
        ..p
    }
}

/// Whether a message was received before: one with a key that the log has.
pub open spec fn known(p: LoraView, key: u64) -> bool {
    key != 0 && p.keys.contains(key)
}

/// The page after a message came: one that is replayed changes nothing.
pub open spec fn after_message(
    p: LoraView,
    key: u64,
    stamp: Seq<char>,
    text: Seq<char>,
    bytes: int,
    rssi: int,
) -> LoraView {
    if known(p, key) {
        p
    } else {
        after_receive(p, key, stamp, text, bytes, rssi)
    }
}

/// The page with its log scrolled by a page less one row, towards newer
/// messages.
pub open spec fn scrolled_up(p: LoraView) -> LoraView {
    LoraView {
        scroll: if p.scroll < 39 {
            0
        } else {
            p.scroll - 39
        },
        clear_armed: false,
        ..p
    }
}

/// The page with its log scrolled by a page less one row, towards older
/// messages, but not past its last page.
pub open spec fn scrolled_down(p: LoraView) -> LoraView {
    let end = last_scroll(log_rows(p.received).len() as int);
    LoraView {
        scroll: if p.scroll + 39 < end {
            p.scroll + 39
        } else {
            end
        },
        clear_armed: false,
        ..p
    }
}

/// The page after a touch of the delete button.
pub open spec fn clear_tapped(p: LoraView) -> LoraView {
    if p.clear_armed {
        LoraView { received: seq![], keys: seq![], scroll: 0, clear_armed: false, ..p }
    } else {
        LoraView { clear_armed: true, ..p }
    }
}

/// Adds to a list and drops its oldest entry where it is over `max`.
pub fn push_capped(list: &mut Vec<String>, item: String, max: usize)
    requires
        old(list)@.len() <= max,
    ensures
        texts(final(list)@) == last_of(texts(old(list)@).push(item@), max as int),
        final(list)@.len() == if old(list)@.len() < max {
            old(list)@.len() + 1
        } else {
            max as nat
        },
{
    let ghost before = list@;
    let ghost it = item@;
    list.push(item);
    let ghost grown = list@;
    assert(texts(grown) =~= texts(before).push(it));
    if list.len() > max {
        let _oldest: String = list.remove(0);
        assert(texts(list@) =~= texts(grown).skip(1));
    }
}

/// Adds a key to a list and drops its oldest where it is over `max`.
fn push_key(list: &mut Vec<u64>, key: u64, max: usize)
    requires
        old(list)@.len() <= max,
    ensures
        final(list)@ == last_of(old(list)@.push(key), max as int),
        final(list)@.len() == if old(list)@.len() < max {
            old(list)@.len() + 1
        } else {
            max as nat
        },
{
    let ghost before = list@;
    list.push(key);
    if list.len() > max {
        let _oldest: u64 = list.remove(0);
        assert(list@ =~= before.push(key).skip(1));
    }
}

impl LoraPage {
    /// The lists are no longer than they may be, and keys and messages are
    /// side by side.
    pub open spec fn well_formed(&self) -> bool {
        &&& self.sent@.len() <= LIST_MAX
        &&& self.received@.len() <= RECV_MAX
        &&& self.keys@.len() == self.received@.len()
    }

    /// The page with the backlog that the card holds.
    pub fn new(keys: Vec<u64>, received: Vec<String>) -> (r: Self)
        requires
            keys@.len() == received@.len(),
            received@.len() <= RECV_MAX,
        ensures
            r.well_formed(),
            r@ == (LoraView {
                tab: Tab::Info,
                message: seq![],
                status: "type a message, then SEND"@,
                sent: seq![],
                received: texts(received@),
                keys: keys@,
                scroll: 0,
                clear_armed: false,
            }),
    {
        let r: LoraPage = LoraPage {
            tab: Tab::Info,
            message: String::new(),
            status: own("type a message, then SEND"),
            sent: Vec::new(),
            received,
            keys,
            scroll: 0,
            clear_armed: false,
        };
        assert(r@.sent =~= seq![]);
        r
    }

    /// SEND was touched, and `sending` is what came of it. Says whether a
    /// message was tried, so that what was typed and the list are painted.
    pub fn on_send(&mut self, sending: Sending, stamp: &str) -> (r: bool)
        requires
            old(self).well_formed(),
        ensures
            final(self).well_formed(),
            final(self)@ == after_send(old(self)@, sending, stamp@),
            r == (old(self)@.message.len() > 0 && !(sending is NoRadio)),
    {
        let ghost before = self@;
        if self.message.as_str().is_empty() {
            self.status = own("nothing to send");
            return false;
        }
        match sending {
            Sending::Sent => {
                let n: usize = self.message.as_str().as_bytes().len();
                let mut s: String = own("sent ");
                push_dec(&mut s, n as u64);
                s.append(" bytes");
                self.status = s;
                let mut line: String = own(stamp);
                line.append(self.message.as_str());
                push_capped(&mut self.sent, line, LIST_MAX);
                self.message = String::new();
                assert(self@ =~= after_send(before, sending, stamp@));
                true
            },
            Sending::Refused(e) => {
                let mut s: String = own("tx error: ");
                s.append(e.as_str());
                self.status = s;
                true
            },
            Sending::NoRadio => {
                self.status = own("radio not ready");
                false
            },
        }
    }

    /// A message of `bytes` bytes was received.
    pub fn on_receive(&mut self, key: u64, stamp: &str, text: &str, bytes: usize, rssi: i16)
        requires
            old(self).well_formed(),
        ensures
            final(self).well_formed(),
            final(self)@ == after_receive(
                old(self)@,
                key,
                stamp@,
                text@,
                bytes as int,
                rssi as int,
            ),
    {
        let ghost before = self@;
        let mut line: String = own(stamp);
        line.append(text);
        push_capped(&mut self.received, line, RECV_MAX);
        push_key(&mut self.keys, key, RECV_MAX);
        let mut s: String = own("received ");
        push_dec(&mut s, bytes as u64);
        s.append(" bytes (");
        push_int(&mut s, rssi as i64);
        s.append(" dBm)");
        self.status = s;
        assert(self@ =~= after_receive(
            before,
            key,
            stamp@,
            text@,
            bytes as int,
            rssi as int,
        ));
    }

    /// Whether a message was received before: one with a key that the log has.
    /// Messages without a key are never known.
    pub fn knows(&self, key: u64) -> (r: bool)
        ensures
            r == known(self@, key),
    {
        if key == 0 {
            return false;
        }
        let mut i: usize = 0;
        while i < self.keys.len()
            invariant
                i <= self.keys@.len(),
                key != 0,
                forall|k: int| 0 <= k < i ==> self.keys@[k] != key,
            decreases self.keys@.len() - i,
        {
            if self.keys[i] == key {
                assert(self@.keys[i as int] == key);
                return true;
            }
            i = i + 1;
        }
        false
    }

    /// A message of `bytes` bytes came. One that is replayed is not shown
    /// again. Says whether it is new.
    pub fn on_message(
        &mut self,
        key: u64,
        stamp: &str,
        text: &str,
        bytes: usize,
        rssi: i16,
    ) -> (r: bool)
        requires
            old(self).well_formed(),
        ensures
            final(self).well_formed(),
            r == !known(old(self)@, key),
            !r ==> *final(self) == *old(self),
            final(self)@ == after_message(
                old(self)@,
                key,
                stamp@,
                text@,
                bytes as int,
                rssi as int,
            ),
    {
        if self.knows(key) {
            false
        } else {
            self.on_receive(key, stamp, text, bytes, rssi);
            true
        }
    }

    /// Scrolls the log by a page less one row, towards newer messages.
    pub fn scroll_up(&mut self)
        ensures
            final(self)@ == scrolled_up(old(self)@),
            old(self).well_formed() ==> final(self).well_formed(),
    {
        self.scroll = if self.scroll < RECV_ROWS - 1 {
            0
        } else {
            self.scroll - (RECV_ROWS - 1)
        };
        self.clear_armed = false;
    }

    /// Scrolls the log by a page less one row, towards older messages, but not
    /// past its last page.
    pub fn scroll_down(&mut self)
        ensures
            final(self)@ == scrolled_down(old(self)@),
            old(self).well_formed() ==> final(self).well_formed(),
    {
        let end: usize = recv_scroll_max(&self.received);
        self.scroll = if end > RECV_ROWS - 1 && self.scroll < end - (RECV_ROWS - 1) {
            self.scroll + (RECV_ROWS - 1)
        } else {
            end
        };
        self.clear_armed = false;
    }

    /// The delete button was touched: the first touch asks for a second one,
    /// which deletes the log. Says whether it was deleted.
    pub fn tap_clear(&mut self) -> (r: bool)
        requires
            old(self).well_formed(),
        ensures
            final(self).well_formed(),
            r == old(self)@.clear_armed,
            final(self)@ == clear_tapped(old(self)@),
            final(self)@ == if r {
                LoraView {
                    received: seq![],
                    keys: seq![],
                    scroll: 0,
                    clear_armed: false,
                    ..old(self)@
                }
            } else {
                LoraView { clear_armed: true, ..old(self)@ }
            },
    {
        if self.clear_armed {
            self.received = Vec::new();
            self.keys = Vec::new();
            self.scroll = 0;
            self.clear_armed = false;
            assert(self@.received =~= seq![]);
            true
        } else {
            self.clear_armed = true;
            false
        }
    }

    /// Any other touch makes the delete button ask again. Says whether it had
    /// asked.
    pub fn disarm(&mut self) -> (r: bool)
        ensures
            r == old(self)@.clear_armed,
            final(self)@ == (LoraView { clear_armed: false, ..old(self)@ }),
            old(self).well_formed() ==> final(self).well_formed(),
    {
        let armed: bool = self.clear_armed;
        self.clear_armed = false;
        armed
    }
}

/// What is done with the radio.
#[derive(Clone, Copy, Debug, PartialEq, Eq, Structural)]
pub enum RadioStep {
    Keep,
    /// It is set up and listens.
    Start,
    /// It is set to standby and given back.
    Stop,
}

/// What is done with the radio, and whether it was tried, given whether it is
/// wanted.
pub open spec fn radio_turn(wanted: bool, running: bool, tried: bool) -> (RadioStep, bool) {
    if wanted && !running && !tried {
        (RadioStep::Start, true)
    } else if !wanted && running {
        (RadioStep::Stop, false)
    } else {
        (RadioStep::Keep, wanted && tried)
    }
}

/// Whether the radio is on: while the LoRa page is up, or always where the
/// settings say so. It is tried once: a radio that could not be set up is tried
/// again only after it was not wanted for a while.
pub fn radio_step(nav: Nav, always: bool, running: bool, tried: &mut bool) -> (r: RadioStep)
    ensures
        (r, *final(tried)) == radio_turn(nav.screen == Screen::Lora || always, running, *old(tried)),
        ({
            let wanted = nav.screen == Screen::Lora || always;
            &&& r == if wanted && !running && !*old(tried) {
                RadioStep::Start
            } else if !wanted && running {
                RadioStep::Stop
            } else {
                RadioStep::Keep
            }
            &&& *final(tried) == (wanted && (*old(tried) || r == RadioStep::Start))
        }),
{
    if nav.screen == Screen::Lora || always {
        if !running && !*tried {
            *tried = true;
            RadioStep::Start
        } else {
            RadioStep::Keep
        }
    } else {
        *tried = false;
        if running {
            RadioStep::Stop
        } else {
            RadioStep::Keep
        }
    }
}

/// A message with a key that was received is known from then on, until as many
/// others have come as the log keeps.
pub proof fn law_received_message_is_known(
    p: LoraView,
    key: u64,
    stamp: Seq<char>,
    text: Seq<char>,
    bytes: int,
    rssi: int,
)
    ensures
        after_receive(p, key, stamp, text, bytes, rssi).keys.contains(key),
        forall|k: u64|
            p.keys.contains(k) && p.keys.len() < RECV_MAX ==> after_receive(
                p,
                key,
                stamp,
                text,
                bytes,
                rssi,
            ).keys.contains(k),
{
    let after = after_receive(p, key, stamp, text, bytes, rssi).keys;
    let grown = p.keys.push(key);
    assert(after[after.len() - 1] == key);
    assert forall|k: u64| p.keys.contains(k) && p.keys.len() < RECV_MAX implies after.contains(
        k,
    ) by {
        let i = choose|i: int| 0 <= i < p.keys.len() && p.keys[i] == k;
        assert(grown[i] == k);
        assert(after[i] == k);
    }
}

/// Whether no message with a key stands in the log twice.
pub open spec fn no_message_twice(p: LoraView) -> bool {
    forall|i: int, j: int|
        0 <= i < j < p.keys.len() && p.keys[i] != 0 ==> #[trigger] p.keys[i]
            != #[trigger] p.keys[j]
}

/// A message with a key that comes again changes nothing, however often.
pub proof fn law_replayed_message_is_shown_once(
    p: LoraView,
    key: u64,
    stamp: Seq<char>,
    text: Seq<char>,
    bytes: int,
    rssi: int,
)
    requires
        key != 0,
    ensures
        ({
            let once = after_message(p, key, stamp, text, bytes, rssi);
            &&& known(once, key)
            &&& after_message(once, key, stamp, text, bytes, rssi) == once
        }),
{
    if !known(p, key) {
        law_received_message_is_known(p, key, stamp, text, bytes, rssi);
    }
}

/// A log without a message that stands in it twice stays so, whatever comes.
pub proof fn law_no_message_comes_to_stand_twice(
    p: LoraView,
    key: u64,
    stamp: Seq<char>,
    text: Seq<char>,
    bytes: int,
    rssi: int,
)
    requires
        no_message_twice(p),
    ensures
        no_message_twice(after_message(p, key, stamp, text, bytes, rssi)),
{
    if !known(p, key) {
        let grown = p.keys.push(key);
        let after = after_receive(p, key, stamp, text, bytes, rssi).keys;
        let cut = grown.len() - after.len();
        assert forall|i: int, j: int| 0 <= i < j < after.len() && after[i]
            != 0 implies #[trigger] after[i] != #[trigger] after[j] by {
            assert(after[i] == grown[cut + i]);
            assert(after[j] == grown[cut + j]);
            assert(grown[cut + i] == p.keys[cut + i]);
            if cut + j < p.keys.len() {
                assert(grown[cut + j] == p.keys[cut + j]);
            } else {
                assert(after[j] == key);
            }
        }
    }
}

/// A message that came is the last entry of the log, its stamp in front and
/// its text complete, however long. The entries in front of it are those that
/// were there, without the oldest where the log was full, and the keys stand
/// beside the entries in the same way. Nothing but the log and the status
/// changes.
pub proof fn law_message_is_logged_whole(
    p: LoraView,
    key: u64,
    stamp: Seq<char>,
    text: Seq<char>,
    bytes: int,
    rssi: int,
)
    requires
        p.received.len() <= 120,
        p.keys.len() == p.received.len(),
    ensures
        ({
            let after = after_receive(p, key, stamp, text, bytes, rssi);
            let full = p.received.len() == 120;
            &&& after.received.len() == after.keys.len()
            &&& after.received.len() == if full {
                120
            } else {
                p.received.len() + 1
            }
            &&& after.received.last().len() == stamp.len() + text.len()
            &&& after.received.last().take(stamp.len() as int) == stamp
            &&& after.received.last().skip(stamp.len() as int) == text
            &&& after.keys.last() == key
            &&& forall|i: int|
                0 <= i < after.received.len() - 1 ==> {
                    let from = if full {
                        i + 1
                    } else {
                        i
                    };
                    &&& #[trigger] after.received[i] == p.received[from]
                    &&& after.keys[i] == p.keys[from]
                }
            &&& after.status == "received "@ + dec(bytes) + " bytes ("@ + dec_signed(rssi)
                + " dBm)"@
            &&& after.tab == p.tab
            &&& after.message == p.message
            &&& after.sent == p.sent
            &&& after.scroll == p.scroll
            &&& after.clear_armed == p.clear_armed
        }),
        !p.keys.contains(key) || key == 0 ==> after_message(p, key, stamp, text, bytes, rssi)
            == after_receive(p, key, stamp, text, bytes, rssi),
        p.keys.contains(key) && key != 0 ==> after_message(p, key, stamp, text, bytes, rssi) == p,
{
    let after = after_receive(p, key, stamp, text, bytes, rssi);
    assert(after.received.last() == stamp + text);
    assert((stamp + text).take(stamp.len() as int) =~= stamp);
    assert((stamp + text).skip(stamp.len() as int) =~= text);
}

/// A message that was sent is the last entry of the list of those sent, its
/// stamp in front and its text complete, behind the previous ones (without the
/// oldest where the list was full), and the field is empty for the next one. A
/// message that could not be sent stays in the field and is not listed. The
/// received messages do not change.
pub proof fn law_sent_message_is_listed(p: LoraView, sending: Sending, stamp: Seq<char>)
    requires
        p.sent.len() <= 3,
    ensures
        ({
            let after = after_send(p, sending, stamp);
            let full = p.sent.len() == 3;
            &&& sending is Sent && p.message.len() > 0 ==> {
                &&& after.message.len() == 0
                &&& after.sent.len() == if full {
                    3
                } else {
                    p.sent.len() + 1
                }
                &&& after.sent.last().len() == stamp.len() + p.message.len()
                &&& after.sent.last().take(stamp.len() as int) == stamp
                &&& after.sent.last().skip(stamp.len() as int) == p.message
                &&& forall|i: int|
                    0 <= i < after.sent.len() - 1 ==> #[trigger] after.sent[i] == p.sent[if full {
                        i + 1
                    } else {
                        i
                    }]
            }
            &&& !(sending is Sent) || p.message.len() == 0 ==> {
                &&& after.message == p.message
                &&& after.sent == p.sent
            }
            &&& p.message.len() == 0 ==> after.status == "nothing to send"@
            &&& p.message.len() > 0 ==> after.status == match sending {
                Sending::Sent => "sent "@ + dec(encode_utf8(p.message).len() as int) + " bytes"@,
                Sending::Refused(e) => "tx error: "@ + e@,
                Sending::NoRadio => "radio not ready"@,
            }
            &&& after.tab == p.tab
            &&& after.received == p.received
            &&& after.keys == p.keys
            &&& after.scroll == p.scroll
            &&& after.clear_armed == p.clear_armed
        }),
{
    let line = stamp + p.message;
    assert(line.take(stamp.len() as int) =~= stamp);
    assert(line.skip(stamp.len() as int) =~= p.message);
}

/// Scrolling goes by a page less one row and stops at the ends of the log: at
/// its newest row, and where its oldest row is the last of a page of forty.
/// Where neither end stops it, scrolling back takes back a step. Scrolling
/// changes nothing else but that the delete button asks again.
pub proof fn law_scrolling_stays_in_the_log(p: LoraView)
    requires
        0 <= p.scroll,
    ensures
        ({
            let rows = log_rows(p.received).len();
            let up = scrolled_up(p);
            let down = scrolled_down(p);
            &&& 0 <= up.scroll <= p.scroll
            &&& up.scroll > 0 ==> up.scroll == p.scroll - 39
            &&& up.scroll == 0 ==> p.scroll <= 39
            &&& 0 <= down.scroll
            &&& down.scroll > 0 ==> down.scroll + 40 <= rows
            &&& p.scroll + 39 + 40 <= rows ==> down.scroll == p.scroll + 39 && scrolled_up(
                down,
            ).scroll == p.scroll
            &&& p.scroll + 39 + 40 > rows ==> down.scroll == if rows <= 40 {
                0
            } else {
                rows - 40
            }
            &&& up == LoraView { scroll: up.scroll, clear_armed: false, ..p }
            &&& down == LoraView { scroll: down.scroll, clear_armed: false, ..p }
        }),
{
}

/// The log is emptied by two touches of the delete button in a row, and by
/// nothing less: one touch leaves every message where it is. What was sent and
/// what is being typed stays.
pub proof fn law_log_is_cleared_by_two_touches(p: LoraView)
    ensures
        ({
            let once = clear_tapped(p);
            let twice = clear_tapped(once);
            &&& !p.clear_armed ==> {
                &&& once.received == p.received
                &&& once.keys == p.keys
                &&& once.scroll == p.scroll
                &&& once.clear_armed
                &&& twice.received.len() == 0
                &&& twice.keys.len() == 0
                &&& twice.scroll == 0
                &&& !twice.clear_armed
            }
            &&& p.clear_armed ==> once.received.len() == 0 && once.keys.len() == 0
            &&& once.sent == p.sent
            &&& once.message == p.message
            &&& once.tab == p.tab
            &&& once.status == p.status
        }),
{
}

/// The page holds every message whole, sent and received, as it was put there.
pub proof fn law_page_holds_messages_whole(p: LoraPage, i: int)
    ensures
        p@.sent.len() == p.sent@.len(),
        p@.received.len() == p.received@.len(),
        0 <= i < p.sent@.len() ==> p@.sent[i] == p.sent@[i]@,
        0 <= i < p.received@.len() ==> p@.received[i] == p.received@[i]@,
        p@.keys == p.keys@,
        p@.message == p.message@,
        p@.status == p.status@,
        p@.scroll == p.scroll,
        p@.clear_armed == p.clear_armed,
        p@.tab == p.tab,
{
}

/// A radio that is wanted is started once: where that failed, it is tried again
/// only after it was not wanted for a while. One that is not wanted is stopped
/// if it runs.
pub proof fn law_radio_runs_while_wanted(running: bool, tried: bool)
    ensures
        radio_turn(true, false, false) == (RadioStep::Start, true),
        radio_turn(true, false, true) == (RadioStep::Keep, true),
        radio_turn(true, true, tried) == (RadioStep::Keep, tried),
        radio_turn(false, true, tried) == (RadioStep::Stop, false),
        radio_turn(false, false, tried) == (RadioStep::Keep, false),
        radio_turn(true, false, radio_turn(false, running, tried).1).0 == RadioStep::Start,
{
}

} // verus!
