//! The Wi-Fi page: scanning, joining a network, and checking the internet.
use vstd::prelude::*;
use vstd::string::*;
use vstd::utf8::*;

use super::nav::{Nav, Screen};
use super::pending::{in_step, saved_request, used_password, used_ssid, Pending};
use crate::keyboard::Key;
use crate::settings::networks::NetworkView;
use crate::settings::{
    forgotten, saved_password, used_most_recently, Settings, SettingsView,
};
use crate::text::{dec, own, push_dec};
use crate::text_field::{edited, has_room, law_text_stays_within_limit, EnterKey};
use crate::wifi::{scan_views, Link, Op, Request, ScanEntry, ScanView};

verus! {

/// Bytes that a passphrase may have.
pub const PASSPHRASE_MAX: usize = 63;

/// The layer of the keyboard that is up.
#[derive(Clone, Copy, Debug, PartialEq, Eq, Structural)]
pub struct Keys {
    pub symbols: bool,
    pub shift: bool,
}

/// The state of the page.
pub struct WifiPage {
    pub status: String,
    pub networks: Vec<ScanEntry>,
    /// Whether a scan is to be asked for.
    pub scan_dirty: bool,
    /// Whether a join is to be asked for.
    pub join_dirty: bool,
    /// Whether a check is to be asked for.
    pub sync_dirty: bool,
    /// Whether the keyboard is up for a passphrase.
    pub pw_mode: bool,
    /// The network to join.
    pub pw_ssid: String,
    /// The passphrase to join it with.
    pub pw_buf: String,
    /// Whether the passphrase is one that was saved.
    pub reconnect: bool,
}

/// What the page knows.
#[verifier::ext_equal]
pub struct WifiPageView {
    pub status: Seq<char>,
    pub networks: Seq<ScanView>,
    pub scan_dirty: bool,
    pub join_dirty: bool,
    pub sync_dirty: bool,
    pub pw_mode: bool,
    pub ssid: Seq<char>,
    pub password: Seq<char>,
    pub reconnect: bool,
}

impl View for WifiPage {
    type V = WifiPageView;

    open spec fn view(&self) -> WifiPageView {
        WifiPageView {
            status: self.status@,
            networks: scan_views(self.networks@),
            scan_dirty: self.scan_dirty,
            join_dirty: self.join_dirty,
            sync_dirty: self.sync_dirty,
            pw_mode: self.pw_mode,
            ssid: self.pw_ssid@,
            password: self.pw_buf@,
            reconnect: self.reconnect,
        }
    }
}

impl WifiPageView {
    /// The page with another status line.
    pub open spec fn saying(self, status: Seq<char>) -> WifiPageView {
        WifiPageView { status, ..self }
    }
}

/// What the page says of a scan.
pub open spec fn scan_status(found: Option<Seq<ScanView>>) -> Seq<char> {
    match found {
        Some(nets) => if nets.len() == 0 {
            "no networks found"@
        } else {
            dec(nets.len() as int) + " networks - tap one to join"@
        },
        None => "scan failed"@,
    }
}

/// The page after a touch of a network: one that is known is joined with the
/// passphrase it was joined with before, an open one without any, and for
/// another one the passphrase is asked for.
pub open spec fn network_tapped(p: WifiPageView, s: SettingsView, e: ScanView) -> WifiPageView {
    match saved_password(s.table(), e.ssid) {
        Some(saved) => WifiPageView {
            ssid: e.ssid,
            password: saved,
            reconnect: true,
            join_dirty: true,
            status: "reconnecting..."@,
            ..p
        },
        None => if e.secured {
            WifiPageView {
                ssid: e.ssid,
                password: seq![],
                reconnect: false,
                pw_mode: true,
                status: "enter password, then SAVE"@,
                ..p
            }
        } else {
            WifiPageView {
                ssid: e.ssid,
                password: seq![],
                reconnect: false,
                join_dirty: true,
                status: "connecting..."@,
                ..p
            }
        },
    }
}

/// The page after a join that failed: with a passphrase, which may be wrong,
/// the keyboard is up with it so that it can be mended.
pub open spec fn join_failed(p: WifiPageView, reconnect: bool) -> WifiPageView {
    if p.password.len() > 0 {
        WifiPageView {
            pw_mode: true,
            status: if reconnect {
                "reconnect failed - re-enter password"@
            } else {
                "join failed - check password"@
            },
            ..p
        }
    } else {
        p.saying("join failed"@)
    }
}

/// What a key does while the passphrase is typed.
#[derive(Clone, Copy, Debug, PartialEq, Eq, Structural)]
pub enum PasswordKey {
    /// The keyboard is painted in its new layer.
    Layer,
    /// The passphrase is painted.
    Typed,
    /// The network is joined.
    Join,
}

/// What a key does while the passphrase is typed.
pub open spec fn key_does(key: Key) -> PasswordKey {
    match key {
        Key::Shift => PasswordKey::Layer,
        Key::Symbols => PasswordKey::Layer,
        Key::Enter => PasswordKey::Join,
        _ => PasswordKey::Typed,
    }
}

/// The layer of the keyboard after a key.
pub open spec fn layer_after(keys: Keys, key: Key) -> Keys {
    match key {
        Key::Shift => Keys { shift: !keys.shift, ..keys },
        Key::Symbols => Keys { symbols: !keys.symbols, ..keys },
        _ => keys,
    }
}

/// The page after a key was touched while the passphrase is typed.
pub open spec fn key_typed(p: WifiPageView, key: Key) -> WifiPageView {
    match key {
        Key::Shift => p,
        Key::Symbols => p,
        Key::Enter => WifiPageView {
            pw_mode: false,
            join_dirty: true,
            status: "connecting..."@,
            ..p
        },
        _ => WifiPageView {
            password: edited(p.password, key, EnterKey::Submit, PASSPHRASE_MAX as int),
            ..p
        },
    }
}

impl WifiPage {
    /// The page before anything was scanned.
    pub fn new() -> (r: Self)
        ensures
            r@ == (WifiPageView {
                status: "tap Scan to find networks"@,
                networks: seq![],
                scan_dirty: false,
                join_dirty: false,
                sync_dirty: false,
                pw_mode: false,
                ssid: seq![],
                password: seq![],
                reconnect: false,
            }),
    {
        let r: WifiPage = WifiPage {
            status: own("tap Scan to find networks"),
            networks: Vec::new(),
            scan_dirty: false,
            join_dirty: false,
            sync_dirty: false,
            pw_mode: false,
            pw_ssid: String::new(),
            pw_buf: String::new(),
            reconnect: false,
        };
        assert(r@.networks =~= seq![]);
        r
    }

    /// Opens the page from the menu: the networks found before are kept.
    pub fn open(&mut self)
        ensures
            final(self)@ == page_opened(old(self)@),
            final(self)@ == (WifiPageView {
                pw_mode: false,
                status: if old(self)@.networks.len() == 0 {
                    "tap Scan to find networks"@
                } else {
                    old(self)@.status
                },
                ..old(self)@
            }),
    {
        self.pw_mode = false;
        if self.networks.len() == 0 {
            self.status = own("tap Scan to find networks");
        }
        assert(self@.networks =~= old(self)@.networks);
    }

    /// Takes what a scan found.
    pub fn on_scan_done(&mut self, found: Option<Vec<ScanEntry>>)
        ensures
            final(self)@ == scanned(
                old(self)@,
                match found {
                    Some(nets) => Some(scan_views(nets@)),
                    None => None,
                },
            ),
            final(self)@ == (WifiPageView {
                status: scan_status(
                    match found {
                        Some(nets) => Some(scan_views(nets@)),
                        None => None,
                    },
                ),
                networks: match found {
                    Some(nets) => scan_views(nets@),
                    None => old(self)@.networks,
                },
                ..old(self)@
            }),
    {
        match found {
            Some(nets) => {
                if nets.len() == 0 {
                    self.status = own("no networks found");
                } else {
                    let mut s: String = String::new();
                    push_dec(&mut s, nets.len() as u64);
                    s.append(" networks - tap one to join");
                    assert(s@ =~= dec(nets@.len() as int) + " networks - tap one to join"@);
                    self.status = s;
                }
                self.networks = nets;
            },
            None => {
                self.status = own("scan failed");
            },
        }
    }

    /// Takes the outcome of a join. Only a network that was joined is saved,
    /// so that a wrong passphrase never is.
    pub fn on_join_done(
        &mut self,
        ok: bool,
        reconnect: bool,
        settings: &mut Settings,
        settings_dirty: &mut bool,
        keys: &mut Keys,
    )
        ensures
            ok ==> {
                &&& final(self)@ == old(self)@.saying("connected: "@ + old(self)@.ssid)
                &&& *final(keys) == *old(keys)
                &&& *final(settings_dirty)
                &&& final(settings)@.table() == used_most_recently(
                    old(settings)@.table(),
                    old(self)@.ssid,
                    NetworkView::remembering(old(self)@.ssid, old(self)@.password),
                )
                &&& final(settings)@ == (SettingsView {
                    networks: final(settings)@.networks,
                    count: final(settings)@.count,
                    ..old(settings)@
                })
            },
            !ok ==> {
                &&& final(self)@ == join_failed(old(self)@, reconnect)
                &&& *final(settings) == *old(settings)
                &&& *final(settings_dirty) == *old(settings_dirty)
                &&& *final(keys) == if old(self)@.password.len() > 0 {
                    Keys { symbols: false, shift: false }
                } else {
                    *old(keys)
                }
            },
    {
        if ok {
            settings.set_wifi(self.pw_ssid.as_str(), self.pw_buf.as_str());
            *settings_dirty = true;
            let mut s: String = own("connected: ");
            s.append(self.pw_ssid.as_str());
            self.status = s;
        } else if !self.pw_buf.as_str().is_empty() {
            keys.symbols = false;
            keys.shift = false;
            self.pw_mode = true;
            self.status = if reconnect {
                own("reconnect failed - re-enter password")
            } else {
                own("join failed - check password")
            };
        } else {
            self.status = own("join failed");
        }
        assert(self@.networks =~= old(self)@.networks);
    }

    /// Takes the outcome of a check.
    pub fn on_checked(&mut self, set: bool)
        ensures
            final(self)@ == old(self)@.saying(
                if set {
                    "internet ok - clock synced"@
                } else {
                    "check failed - no internet?"@
                },
            ),
    {
        self.status = own(super::clock::check_status(set));
    }

    /// Scan was touched.
    pub fn tap_scan(&mut self)
        ensures
            final(self)@ == (WifiPageView {
                status: "scanning..."@,
                scan_dirty: true,
                ..old(self)@
            }),
    {
        self.status = own("scanning...");
        self.scan_dirty = true;
    }

    /// Sync clock was touched: without a known network there is nothing to
    /// check.
    pub fn tap_sync(&mut self, settings: &Settings)
        ensures
            final(self)@ == sync_tapped(old(self)@, settings@),
            final(self)@ == if used_ssid(settings@).len() == 0 {
                old(self)@.saying("no saved network - join one first"@)
            } else {
                WifiPageView {
                    status: "checking internet..."@,
                    sync_dirty: true,
                    ..old(self)@
                }
            },
    {
        if settings.wifi_ssid().is_empty() {
            self.status = own("no saved network - join one first");
        } else {
            self.status = own("checking internet...");
            self.sync_dirty = true;
        }
    }

    /// A network was touched. Says whether there is one of that number.
    pub fn tap_network(&mut self, i: usize, settings: &Settings, keys: &mut Keys) -> (r: bool)
        ensures
            r == (i < old(self)@.networks.len()),
            !r ==> *final(self) == *old(self) && *final(keys) == *old(keys),
            r ==> {
                &&& final(self)@ == network_tapped(
                    old(self)@,
                    settings@,
                    old(self)@.networks[i as int],
                )
                &&& *final(keys) == if saved_password(
                    settings@.table(),
                    old(self)@.networks[i as int].ssid,
                ) is None && old(self)@.networks[i as int].secured {
                    Keys { symbols: false, shift: false }
                } else {
                    *old(keys)
                }
            },
    {
        if i >= self.networks.len() {
            return false;
        }
        let ghost before = self@;
        assert(before.networks[i as int] == self.networks@[i as int]@);
        let ssid: String = own(self.networks[i].ssid.as_str());
        let secured: bool = self.networks[i].secured;
        match settings.saved_wifi_password(ssid.as_str()) {
            Some(saved) => {
                self.pw_buf = own(saved);
                self.reconnect = true;
                self.join_dirty = true;
                self.status = own("reconnecting...");
            },
            None => {
                self.pw_buf = String::new();
                self.reconnect = false;
                if secured {
                    keys.symbols = false;
                    keys.shift = false;
                    self.pw_mode = true;
                    self.status = own("enter password, then SAVE");
                } else {
                    self.join_dirty = true;
                    self.status = own("connecting...");
                }
            },
        }
        self.pw_ssid = ssid;
        assert(self@ =~= network_tapped(before, settings@, before.networks[i as int]));
        true
    }

    /// A network is to be forgotten: the settings are written at once. Says
    /// whether there is one of that number.
    pub fn tap_forget(
        &mut self,
        i: usize,
        settings: &mut Settings,
        settings_dirty: &mut bool,
    ) -> (r: bool)
        ensures
            r == (i < old(self)@.networks.len()),
            !r ==> {
                &&& *final(self) == *old(self)
                &&& *final(settings) == *old(settings)
                &&& *final(settings_dirty) == *old(settings_dirty)
            },
            r ==> {
                &&& final(self)@ == old(self)@.saying(
                    "forgot "@ + old(self)@.networks[i as int].ssid,
                )
                &&& final(settings)@.table() == forgotten(
                    old(settings)@.table(),
                    old(self)@.networks[i as int].ssid,
                )
                &&& final(settings)@ == (SettingsView {
                    networks: final(settings)@.networks,
                    count: final(settings)@.count,
                    ..old(settings)@
                })
                &&& !*final(settings_dirty)
            },
    {
        if i >= self.networks.len() {
            return false;
        }
        assert(self@.networks[i as int] == self.networks@[i as int]@);
        settings.forget_wifi(self.networks[i].ssid.as_str());
        *settings_dirty = false;
        let mut s: String = own("forgot ");
        s.append(self.networks[i].ssid.as_str());
        self.status = s;
        true
    }

    /// The passphrase is given up.
    pub fn cancel_password(&mut self)
        ensures
            final(self)@ == (WifiPageView {
                pw_mode: false,
                status: "join cancelled"@,
                ..old(self)@
            }),
    {
        self.pw_mode = false;
        self.status = own("join cancelled");
    }

    /// A key was touched while the passphrase is typed.
    pub fn password_key(&mut self, key: Key, keys: &mut Keys) -> (r: PasswordKey)
        ensures
            r == key_does(key),
            *final(keys) == layer_after(*old(keys), key),
            final(self)@ == key_typed(old(self)@, key),
    {
        match key {
            Key::Shift => {
                keys.shift = !keys.shift;
                PasswordKey::Layer
            },
            Key::Symbols => {
                keys.symbols = !keys.symbols;
                PasswordKey::Layer
            },
            Key::Enter => {
                self.pw_mode = false;
                self.join_dirty = true;
                self.status = own("connecting...");
                PasswordKey::Join
            },
            Key::Char(c) => {
                if has_room(self.pw_buf.as_str(), c, PASSPHRASE_MAX) {
                    self.pw_buf.push(c);
                }
                PasswordKey::Typed
            },
            Key::Space => {
                if has_room(self.pw_buf.as_str(), ' ', PASSPHRASE_MAX) {
                    self.pw_buf.push(' ');
                }
                PasswordKey::Typed
            },
            Key::Backspace => {
                let _gone: Option<char> = self.pw_buf.pop();
                PasswordKey::Typed
            },
        }
    }

    /// Asks for the session that the page wants, where its screen is up and
    /// painted and no session runs: a scan first, then a join, then a check.
    pub fn request(
        &mut self,
        nav: Nav,
        settings: &Settings,
        pending: &mut Option<Pending>,
        link: &mut Link,
    )
        ensures
            ({
                let free = nav.screen == Screen::SettingsWifi && !nav.needs_redraw && *old(
                    pending,
                ) is None;
                let room = old(link).request is None;
                let p = old(self)@;
                if free && p.scan_dirty && room {
                    &&& final(self)@ == (WifiPageView { scan_dirty: false, ..p })
                    &&& *final(pending) == Some(Pending::Scan)
                    &&& asked(*final(link), *old(link), seq![], seq![], Op::Scan)
                } else if free && p.join_dirty && room {
                    &&& final(self)@ == (WifiPageView {
                        join_dirty: false,
                        reconnect: false,
                        ..p
                    })
                    &&& *final(pending) == Some(Pending::Join { reconnect: p.reconnect })
                    &&& asked(*final(link), *old(link), p.ssid, p.password, Op::Join)
                } else if free && p.sync_dirty && room {
                    &&& final(self)@ == (WifiPageView { sync_dirty: false, ..p })
                    &&& *final(pending) == Some(Pending::SyncCheck)
                    &&& asked(
                        *final(link),
                        *old(link),
                        used_ssid(settings@),
                        used_password(settings@),
                        Op::SyncTime,
                    )
                } else {
                    &&& final(self)@ == (WifiPageView {
                        reconnect: p.reconnect && !(free && p.join_dirty),
                        ..p
                    })
                    &&& *final(pending) == *old(pending)
                    &&& *final(link) == *old(link)
                }
            }),
            in_step(*old(pending), *old(link)) ==> in_step(*final(pending), *final(link)),
    {
        let on_page: bool = nav.screen == Screen::SettingsWifi && !nav.needs_redraw;
        if on_page && self.scan_dirty && pending.is_none() {
            if link.send(Request { ssid: String::new(), password: String::new(), op: Op::Scan }) {
                self.scan_dirty = false;
                *pending = Some(Pending::Scan);
            }
        }
        if on_page && self.join_dirty && pending.is_none() {
            let reconnect: bool = self.reconnect;
            self.reconnect = false;
            let ssid: String = own(self.pw_ssid.as_str());
            let password: String = own(self.pw_buf.as_str());
            if link.send(Request { ssid, password, op: Op::Join }) {
                self.join_dirty = false;
                *pending = Some(Pending::Join { reconnect });
            }
        }
        if on_page && self.sync_dirty && pending.is_none() {
            if link.send(saved_request(settings, Op::SyncTime)) {
                self.sync_dirty = false;
                *pending = Some(Pending::SyncCheck);
            }
        }
    }
}

/// Whether a link differs from another only in a request that waits.
pub open spec fn asked(
    link: Link,
    before: Link,
    ssid: Seq<char>,
    password: Seq<char>,
    op: Op,
) -> bool {
    &&& link.request matches Some(r) && r.ssid@ == ssid && r.password@ == password && r.op == op
    &&& link == (Link { request: link.request, ..before })
}

/// A passphrase that was typed never has more bytes than it may have, so that
/// it is saved whole.
pub proof fn law_typed_passphrase_fits(password: Seq<char>, key: Key)
    requires
        encode_utf8(password).len() <= PASSPHRASE_MAX,
    ensures
        encode_utf8(edited(password, key, EnterKey::Submit, PASSPHRASE_MAX as int)).len()
            <= PASSPHRASE_MAX,
        PASSPHRASE_MAX <= crate::settings::networks::PASSWORD_CAP,
{
    law_text_stays_within_limit(
        password,
        key,
        EnterKey::Submit,
        PASSPHRASE_MAX as int,
    );
}

/// A network is joined by a touch. One that was joined before is joined with
/// the passphrase that was saved; one without a passphrase is joined as it is;
/// for any other the passphrase is asked for, from the beginning.
pub proof fn law_touched_network_is_joined(p: WifiPageView, s: SettingsView, e: ScanView)
    ensures
        ({
            let after = network_tapped(p, s, e);
            let saved = saved_password(s.table(), e.ssid);
            &&& after.ssid == e.ssid
            &&& after.networks == p.networks
            &&& after.scan_dirty == p.scan_dirty
            &&& after.sync_dirty == p.sync_dirty
            &&& saved is Some ==> {
                &&& after.password == saved->0
                &&& after.reconnect
                &&& after.join_dirty
                &&& after.pw_mode == p.pw_mode
                &&& after.status == "reconnecting..."@
            }
            &&& saved is None ==> after.password.len() == 0 && !after.reconnect
            &&& saved is None && e.secured ==> {
                &&& after.pw_mode
                &&& after.join_dirty == p.join_dirty
                &&& after.status == "enter password, then SAVE"@
            }
            &&& saved is None && !e.secured ==> {
                &&& after.join_dirty
                &&& after.pw_mode == p.pw_mode
                &&& after.status == "connecting..."@
            }
        }),
{
}

/// A join that failed asks for the passphrase again where one was used, and
/// keeps what was typed; nothing else of the page but what it says changes.
pub proof fn law_failed_join_asks_again(p: WifiPageView, reconnect: bool)
    ensures
        ({
            let after = join_failed(p, reconnect);
            &&& after.ssid == p.ssid
            &&& after.password == p.password
            &&& after.networks == p.networks
            &&& after.join_dirty == p.join_dirty
            &&& p.password.len() > 0 ==> after.pw_mode && after.status == if reconnect {
                "reconnect failed - re-enter password"@
            } else {
                "join failed - check password"@
            }
            &&& p.password.len() == 0 ==> after.pw_mode == p.pw_mode && after.status
                == "join failed"@
        }),
{
}

/// Typing a passphrase: a character goes behind what was typed where there is
/// room for it, up to 63 bytes; deleting takes it off again; Enter joins with
/// what was typed and leaves it as it is; the keys that change the keyboard
/// change nothing else.
pub proof fn law_passphrase_is_typed(p: WifiPageView, c: char, keys: Keys)
    ensures
        ({
            let after = key_typed(p, Key::Char(c));
            &&& encode_utf8(p.password.push(c)).len() <= 63 ==> after == (WifiPageView {
                password: p.password.push(c),
                ..p
            }) && key_typed(after, Key::Backspace) == p
            &&& encode_utf8(p.password.push(c)).len() > 63 ==> after == p
        }),
        key_typed(p, Key::Enter) == (WifiPageView {
            pw_mode: false,
            join_dirty: true,
            status: "connecting..."@,
            ..p
        }),
        key_typed(p, Key::Shift) == p,
        key_typed(p, Key::Symbols) == p,
        key_typed(p, Key::Space) == key_typed(p, Key::Char(' ')),
        key_does(Key::Enter) == PasswordKey::Join,
        key_does(Key::Shift) == PasswordKey::Layer,
        key_does(Key::Symbols) == PasswordKey::Layer,
        key_does(Key::Char(c)) == PasswordKey::Typed,
        key_does(Key::Space) == PasswordKey::Typed,
        key_does(Key::Backspace) == PasswordKey::Typed,
        layer_after(keys, Key::Shift) == (Keys { shift: !keys.shift, ..keys }),
        layer_after(keys, Key::Symbols) == (Keys { symbols: !keys.symbols, ..keys }),
        layer_after(keys, Key::Char(c)) == keys,
{
    assert(p.password.push(c).drop_last() =~= p.password);
}

/// After a scan the page says how many networks there are, that there are none,
/// or that the scan failed.
pub proof fn law_scan_is_told(nets: Seq<ScanView>)
    ensures
        nets.len() > 0 ==> scan_status(Some(nets)) == dec(nets.len() as int)
            + " networks - tap one to join"@,
        nets.len() == 0 ==> scan_status(Some(nets)) == "no networks found"@,
        scan_status(None) == "scan failed"@,
{
}

/// The page after it was opened.
pub open spec fn page_opened(p: WifiPageView) -> WifiPageView {
    WifiPageView {
        pw_mode: false,
        status: if p.networks.len() == 0 {
            "tap Scan to find networks"@
        } else {
            p.status
        },
        ..p
    }
}

/// The page after a scan.
pub open spec fn scanned(p: WifiPageView, found: Option<Seq<ScanView>>) -> WifiPageView {
    WifiPageView {
        status: scan_status(found),
        networks: match found {
            Some(nets) => nets,
            None => p.networks,
        },
        ..p
    }
}

/// The page after a touch of the button that sets the clock.
pub open spec fn sync_tapped(p: WifiPageView, s: SettingsView) -> WifiPageView {
    if used_ssid(s).len() == 0 {
        p.saying("no saved network - join one first"@)
    } else {
        WifiPageView { status: "checking internet..."@, sync_dirty: true, ..p }
    }
}

/// A scan replaces the list with all that it found, and one that failed leaves
/// the list as it was. The clock can be set only over a network that was
/// joined before. What a page says changes nothing else of it.
pub proof fn law_scans_and_checks(
    p: WifiPageView,
    s: SettingsView,
    nets: Seq<ScanView>,
    words: Seq<char>,
)
    ensures
        scanned(p, Some(nets)).networks == nets,
        scanned(p, None).networks == p.networks,
        scanned(p, Some(nets)) == (WifiPageView {
            networks: nets,
            status: scan_status(Some(nets)),
            ..p
        }),
        used_ssid(s).len() > 0 ==> sync_tapped(p, s).sync_dirty && sync_tapped(p, s).status
            == "checking internet..."@,
        used_ssid(s).len() == 0 ==> sync_tapped(p, s).sync_dirty == p.sync_dirty && sync_tapped(
            p,
            s,
        ).status == "no saved network - join one first"@,
        !page_opened(p).pw_mode,
        page_opened(p).networks == p.networks,
        p.networks.len() > 0 ==> page_opened(p).status == p.status,
        p.networks.len() == 0 ==> page_opened(p).status == "tap Scan to find networks"@,
        p.saying(words) == (WifiPageView { status: words, ..p }),
{
}

/// A request goes out with the network and the passphrase that it is made with,
/// and for what it is made; nothing else of the link changes.
pub proof fn law_request_goes_out_as_made(
    link: Link,
    before: Link,
    ssid: Seq<char>,
    password: Seq<char>,
    op: Op,
)
    requires
        asked(link, before, ssid, password, op),
    ensures
        link.request is Some,
        link.request->0.ssid@ == ssid,
        link.request->0.password@ == password,
        link.request->0.op == op,
        link.event == before.event,
        link.cancelled == before.cancelled,
        link.path == before.path,
{
}

} // verus!
