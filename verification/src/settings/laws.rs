//! What holds of the table of known networks across calls.
use vstd::prelude::*;
use vstd::utf8::*;

use super::networks::{
    law_network_reads_back, least, text_or_empty, NetworkView, PASSWORD_CAP, SSID_CAP,
};
use super::{
    distinct_ssids, find_ssid, forgotten, knows, lemma_find_ssid, lemma_find_ssid_is,
    saved_password, tz_hours, used_most_recently, SettingsView, ALIAS_CAP, WIFI_NETWORK_CAP,
};
use crate::ascii::law_written_number_is_read;
use crate::text::{dec, law_number_reads_back, lemma_encode_concat};

verus! {

/// Joining a network whose SSID and passphrase fit makes it the first of the
/// table and its passphrase the one that is found for it.
pub proof fn law_joined_is_remembered(
    table: Seq<NetworkView>,
    ssid: Seq<char>,
    password: Seq<char>,
)
    requires
        encode_utf8(ssid).len() <= SSID_CAP,
        encode_utf8(password).len() <= PASSWORD_CAP,
    ensures
        ({
            let after = used_most_recently(
                table,
                ssid,
                NetworkView::remembering(ssid, password),
            );
            &&& after[0].ssid_text() == ssid
            &&& after[0].password_text() == password
            &&& saved_password(after, ssid) == Some(password)
        }),
{
    let entry = NetworkView::remembering(ssid, password);
    let after = used_most_recently(table, ssid, entry);
    lemma_find_ssid(table, ssid);
    law_network_reads_back(ssid, password);
    assert(after[0] == entry);
    lemma_find_ssid_is(after, ssid, 0);
}

/// The table never holds more than five networks: joining grows it by one at
/// most, and not at all when it is full or knows the network.
pub proof fn law_table_is_bounded(table: Seq<NetworkView>, ssid: Seq<char>, entry: NetworkView)
    requires
        table.len() <= WIFI_NETWORK_CAP,
    ensures
        used_most_recently(table, ssid, entry).len() <= WIFI_NETWORK_CAP,
        used_most_recently(table, ssid, entry).len() == if knows(table, ssid) || table.len()
            == WIFI_NETWORK_CAP {
            table.len()
        } else {
            table.len() + 1
        },
        forgotten(table, ssid).len() == if knows(table, ssid) {
            table.len() - 1
        } else {
            table.len() as int
        },
{
    lemma_find_ssid(table, ssid);
}

/// Where one SSID is found in a table that lost the entry at `at` and stands
/// behind `front`.
proof fn lemma_find_behind(
    front: Seq<NetworkView>,
    table: Seq<NetworkView>,
    at: int,
    ssid: Seq<char>,
)
    requires
        0 <= at < table.len(),
        table[at].ssid_text() != ssid,
        forall|i: int| 0 <= i < front.len() ==> (#[trigger] front[i]).ssid_text() != ssid,
    ensures
        knows(front + table.remove(at), ssid) == knows(table, ssid),
        saved_password(front + table.remove(at), ssid) == saved_password(table, ssid),
{
    lemma_find_ssid(table, ssid);
    let p = find_ssid(table, ssid);
    let after = front + table.remove(at);
    let q = front.len() + if p < at {
        p
    } else {
        p - 1
    };
    assert(p != at);
    assert forall|i: int| 0 <= i < q implies (#[trigger] after[i]).ssid_text() != ssid by {
        if i >= front.len() {
            let k = i - front.len();
            if k < at {
                assert(after[i] == table[k]);
            } else {
                assert(after[i] == table[k + 1]);
            }
        } else {
            assert(after[i] == front[i]);
        }
    }
    if p < table.len() {
        assert(after[q] == table[p]);
    }
    lemma_find_ssid_is(after, ssid, q);
}

/// Joining one network leaves the passphrases of the others as they were. The
/// one exception is the last of a full table, which is forgotten when a
/// network is joined that the table does not know.
pub proof fn law_others_are_kept(
    table: Seq<NetworkView>,
    ssid: Seq<char>,
    password: Seq<char>,
    other: Seq<char>,
)
    requires
        table.len() <= WIFI_NETWORK_CAP,
        encode_utf8(ssid).len() <= SSID_CAP,
        other != ssid,
    ensures
        ({
            let after = used_most_recently(
                table,
                ssid,
                NetworkView::remembering(ssid, password),
            );
            saved_password(after, other) == if !knows(table, ssid) && find_ssid(table, other)
                == WIFI_NETWORK_CAP - 1 {
                None
            } else {
                saved_password(table, other)
            }
        }),
{
    let entry = NetworkView::remembering(ssid, password);
    let after = used_most_recently(table, ssid, entry);
    let front = seq![entry];
    lemma_find_ssid(table, ssid);
    lemma_find_ssid(table, other);
    law_network_reads_back(ssid, password);
    let p = find_ssid(table, other);
    if knows(table, ssid) {
        assert forall|i: int| 0 <= i < front.len() implies (#[trigger] front[i]).ssid_text()
            != other by {
            assert(front[i] == entry);
        }
        lemma_find_behind(front, table, find_ssid(table, ssid), other);
    } else {
        let kept = table.take(least(table.len() as int, 4));
        let q = 1 + least(p, kept.len() as int);
        assert forall|i: int| 0 <= i < q implies (#[trigger] after[i]).ssid_text() != other by {
            if i == 0 {
                assert(after[i] == entry);
            } else {
                assert(after[i] == table[i - 1]);
            }
        }
        if q < after.len() {
            assert(after[q] == table[p]);
        }
        lemma_find_ssid_is(after, other, q);
    }
}

/// A table whose SSIDs differ keeps them different when a network whose SSID
/// fits is joined and when one is forgotten.
pub proof fn law_ssids_stay_distinct(
    table: Seq<NetworkView>,
    ssid: Seq<char>,
    password: Seq<char>,
)
    requires
        distinct_ssids(table),
        encode_utf8(ssid).len() <= SSID_CAP,
    ensures
        distinct_ssids(
            used_most_recently(table, ssid, NetworkView::remembering(ssid, password)),
        ),
        distinct_ssids(forgotten(table, ssid)),
{
    let entry = NetworkView::remembering(ssid, password);
    let after = used_most_recently(table, ssid, entry);
    let less = forgotten(table, ssid);
    lemma_find_ssid(table, ssid);
    law_network_reads_back(ssid, password);
    let p = find_ssid(table, ssid);
    assert forall|i: int, j: int| 0 <= i < j < less.len() implies (
    #[trigger] less[i]).ssid_text() != (#[trigger] less[j]).ssid_text() by {
        if knows(table, ssid) {
            let a = if i < p {
                i
            } else {
                i + 1
            };
            let b = if j < p {
                j
            } else {
                j + 1
            };
            assert(less[i] == table[a]);
            assert(less[j] == table[b]);
        }
    }
    assert forall|i: int, j: int| 0 <= i < j < after.len() implies (
    #[trigger] after[i]).ssid_text() != (#[trigger] after[j]).ssid_text() by {
        if knows(table, ssid) {
            let b = if j - 1 < p {
                j - 1
            } else {
                j
            };
            assert(after[j] == table[b]);
            assert(table[b].ssid_text() != table[p].ssid_text());
            if i == 0 {
                assert(after[i] == entry);
            } else {
                let a = if i - 1 < p {
                    i - 1
                } else {
                    i
                };
                assert(after[i] == table[a]);
            }
        } else {
            assert(after[j] == table[j - 1]);
            if i == 0 {
                assert(after[i] == entry);
            } else {
                assert(after[i] == table[i - 1]);
            }
        }
    }
}

/// A forgotten network is not found any more, and the passphrases of the
/// others stay as they were.
pub proof fn law_forgotten_is_gone(table: Seq<NetworkView>, ssid: Seq<char>, other: Seq<char>)
    requires
        distinct_ssids(table),
        other != ssid,
    ensures
        saved_password(forgotten(table, ssid), ssid) is None,
        saved_password(forgotten(table, ssid), other) == saved_password(table, other),
{
    lemma_find_ssid(table, ssid);
    let less = forgotten(table, ssid);
    lemma_find_ssid(less, ssid);
    if knows(table, ssid) {
        let p = find_ssid(table, ssid);
        if knows(less, ssid) {
            let q = find_ssid(less, ssid);
            let b = if q < p {
                q
            } else {
                q + 1
            };
            assert(less[q] == table[b]);
            if b < p {
                assert(table[b].ssid_text() != table[p].ssid_text());
            } else {
                assert(table[p].ssid_text() != table[b].ssid_text());
            }
        }
        let none = Seq::<NetworkView>::empty();
        lemma_find_behind(none, table, p, other);
        assert(none + table.remove(p) =~= less);
    }
}

/// A display name that fits reads back as it was set.
pub proof fn law_alias_reads_back(s: SettingsView, name: Seq<char>)
    requires
        encode_utf8(name).len() <= ALIAS_CAP,
    ensures
        s.with_alias(name).alias_text() == name,
{
    let t = s.with_alias(name);
    encode_utf8_valid_utf8(name);
    encode_utf8_decode_utf8(name);
    assert(t.alias.take(t.alias_len) =~= encode_utf8(name));
}

/// The hours from UTC that a build names are used as they are written, with or
/// without a sign, from -12 to 14; anything else names none.
pub proof fn law_named_hours_are_used(n: int)
    requires
        0 <= n,
    ensures
        n <= 14 ==> tz_hours(encode_utf8(dec(n))) == Some(n),
        n <= 14 ==> tz_hours(encode_utf8(seq!['+'] + dec(n))) == Some(n),
        n <= 12 ==> tz_hours(encode_utf8(seq!['-'] + dec(n))) == Some(-n),
        n > 14 ==> tz_hours(encode_utf8(dec(n))) is None,
        n > 12 ==> tz_hours(encode_utf8(seq!['-'] + dec(n))) is None,
{
    let digits = encode_utf8(dec(n));
    law_written_number_is_read(n);
    law_number_reads_back(n);
    is_ascii_chars_encode_utf8(seq!['+']);
    is_ascii_chars_encode_utf8(seq!['-']);
    lemma_encode_concat(seq!['+'], dec(n));
    lemma_encode_concat(seq!['-'], dec(n));
    let plus = encode_utf8(seq!['+'] + dec(n));
    let minus = encode_utf8(seq!['-'] + dec(n));
    assert(seq!['+'][0] as u8 == 0x2b);
    assert(seq!['-'][0] as u8 == 0x2d);
    assert(plus[0] == 0x2b);
    assert(minus[0] == 0x2d);
    assert(plus.drop_first() =~= digits);
    assert(minus.drop_first() =~= digits);
    assert(0x30 <= digits[0] <= 0x39);
}

/// New settings know the network that the build names, and no other; without
/// one they know none.
pub proof fn law_new_settings_know_the_network(tz: i8, ssid: Seq<char>, password: Seq<char>)
    requires
        encode_utf8(ssid).len() <= SSID_CAP,
        encode_utf8(password).len() <= PASSWORD_CAP,
    ensures
        ({
            let s = SettingsView::fresh(tz, ssid, password);
            &&& s.tz_offset_hours == tz
            &&& ssid.len() > 0 ==> s.table().len() == 1 && saved_password(s.table(), ssid) == Some(
                password,
            )
            &&& ssid.len() == 0 ==> s.table().len() == 0
            &&& s.time_24h
            &&& s.brightness == 0
            &&& !s.mesh_background
            &&& s.alias_len == 0
        }),
{
    let s = SettingsView::fresh(tz, ssid, password);
    law_network_reads_back(ssid, password);
    if ssid.len() > 0 {
        assert(s.table()[0] == NetworkView::remembering(ssid, password));
        assert(s.table()[0].ssid_text() == ssid);
    }
}

/// The passphrase of a network is that of the first entry with its name, and
/// there is none where no entry has it.
pub proof fn law_first_entry_counts(table: Seq<NetworkView>, ssid: Seq<char>, i: int)
    requires
        0 <= i <= table.len(),
        forall|k: int| 0 <= k < i ==> (#[trigger] table[k]).ssid_text() != ssid,
    ensures
        i < table.len() && table[i].ssid_text() == ssid ==> saved_password(table, ssid) == Some(
            table[i].password_text(),
        ),
        i == table.len() ==> saved_password(table, ssid) is None,
    decreases table.len(),
{
    if i > 0 {
        let rest = table.drop_first();
        assert(table[0].ssid_text() != ssid);
        assert forall|k: int| 0 <= k < i - 1 implies (#[trigger] rest[k]).ssid_text() != ssid by {
            assert(rest[k] == table[k + 1]);
        }
        law_first_entry_counts(rest, ssid, i - 1);
        lemma_find_ssid(rest, ssid);
        if i < table.len() && table[i].ssid_text() == ssid {
            assert(rest[i - 1] == table[i]);
            lemma_find_ssid_is(table, ssid, i);
        }
    }
}

/// A network that is used comes to the front, and the others keep their order:
/// those in front of where it stood move back by one, and where it is new the
/// last of five is dropped.
pub proof fn law_used_network_comes_first(
    table: Seq<NetworkView>,
    ssid: Seq<char>,
    entry: NetworkView,
    i: int,
)
    requires
        0 <= i < table.len() <= 5,
    ensures
        ({
            let after = used_most_recently(table, ssid, entry);
            let at = find_ssid(table, ssid);
            &&& after[0] == entry
            &&& knows(table, ssid) && i < at ==> after[i + 1] == table[i]
            &&& knows(table, ssid) && i > at ==> after[i] == table[i]
            &&& !knows(table, ssid) && i < 4 ==> after[i + 1] == table[i]
        }),
{
    lemma_find_ssid(table, ssid);
}

/// A name that is too long is kept as far as its first twelve bytes; what there
/// is beyond the name is empty.
pub proof fn law_long_alias_is_cut(s: SettingsView, name: Seq<char>)
    ensures
        ({
            let b = encode_utf8(name);
            let n = if b.len() < 12 {
                b.len() as int
            } else {
                12
            };
            let t = s.with_alias(name);
            &&& t.alias.len() == 12
            &&& t.alias_len == n
            &&& t.alias.take(n) == b.take(n)
            &&& forall|i: int| n <= i < 12 ==> #[trigger] t.alias[i] == 0
            &&& t == (SettingsView { alias: t.alias, alias_len: t.alias_len, ..s })
            &&& t.alias_text() == text_or_empty(b.take(n))
        }),
{
    let b = encode_utf8(name);
    let n = if b.len() < 12 {
        b.len() as int
    } else {
        12
    };
    let t = s.with_alias(name);
    assert(t.alias.take(n) =~= b.take(n));
}

} // verus!
