//! Turning the file's schema into a validated `Config`.
//!
//! Channel numbers in the file are 1-based (1..=16) and become 0-based;
//! MIDI pitches and CC numbers are 0..=127. Every rejection names the
//! offending entry.

use vstd::prelude::*;
use vstd::string::*;
use std::collections::HashMap;
use crate::text::{has_prefix, parse_unsigned, parse_unsigned_from, starts_with_voice_prefix, voice_prefix};
use crate::config::error::{ValidationError, ValidationErrorView};
use crate::config::schema::{voice_keys, ChainSection, PhysicsSection, TomlConfig, VoiceEntry};
use crate::config::sections::{
    build_chords, build_clock, build_coupling, build_events, build_input, build_midi, build_modulation, build_osc,
    build_physics, build_quantize, build_walls, lemma_gate_voices_channels, spec_build_chords, spec_build_clock,
    spec_build_coupling, spec_build_events, spec_build_input, spec_build_midi, spec_build_modulation, spec_build_osc,
    spec_build_physics, spec_build_quantize, spec_build_walls, spec_gate_voices,
};
use crate::config::{default_tempo, ChainConfig, ChainConfigView, Config, ConfigView, TempoConfig};
use crate::text::concat2;

verus! {

broadcast use vstd::std_specs::hash::group_hash_axioms;

// --- Channels ----------------------------------------------------------------

/// The 0-based channel of a 1-based file channel, or the error naming `label`.
pub open spec fn spec_channel(channel_1b: u8, label: Seq<char>) -> Result<u8, ValidationErrorView> {
    if 1 <= channel_1b && channel_1b <= 16 {
        Ok((channel_1b - 1) as u8)
    } else {
        Err(ValidationErrorView::ChannelOutOfRange { label, got: channel_1b })
    }
}

/// Translates a 1-based channel number from the file (1..=16) into the
/// 0-based channel used internally.
pub fn validate_channel_1based(channel_1b: u8, label: &str) -> (r: Result<u8, ValidationError>)
    ensures
        result_view(r) == spec_channel(channel_1b, label@),
{
    if !(1 <= channel_1b && channel_1b <= 16) {
        return Err(ValidationError::ChannelOutOfRange { label: String::from_str(label), got: channel_1b });
    }
    Ok(channel_1b - 1)
}

/// A result with its error taken by view.
pub open spec fn result_view<T>(r: Result<T, ValidationError>) -> Result<T, ValidationErrorView> {
    match r {
        Ok(v) => Ok(v),
        Err(e) => Err(e@),
    }
}

// --- Voice keys --------------------------------------------------------------

/// A voice of a `voice_N` table: its index `N` and the position of its
/// entry in the table.
#[derive(Clone, Copy, Debug, PartialEq, Eq, Structural)]
pub struct VoiceSlot {
    pub index: usize,
    pub position: usize,
}

/// The index `N` of a key `voice_N`, or the error that rejects the key.
pub open spec fn spec_key_index(key: Seq<char>, section: Seq<char>) -> Result<usize, ValidationErrorView> {
    if !has_prefix(key, voice_prefix()) {
        Err(ValidationErrorView::UnrecognizedVoiceKey { section, key })
    } else {
        match parse_unsigned(key.skip(6)) {
            Some(i) => Ok(i),
            None => Err(ValidationErrorView::NonNumericVoiceKey { section, key }),
        }
    }
}

/// The indices of all keys in order, or the error of the first bad key.
pub open spec fn spec_key_indices(keys: Seq<Seq<char>>, section: Seq<char>) -> Result<Seq<usize>, ValidationErrorView>
    decreases keys.len(),
{
    if keys.len() == 0 {
        Ok(Seq::empty())
    } else {
        match spec_key_indices(keys.drop_last(), section) {
            Err(e) => Err(e),
            Ok(s) => match spec_key_index(keys.last(), section) {
                Err(e) => Err(e),
                Ok(i) => Ok(s.push(i)),
            },
        }
    }
}

/// Order of voice slots: by index, then by table position.
pub open spec fn slot_lt(a: VoiceSlot, b: VoiceSlot) -> bool {
    a.index < b.index || (a.index == b.index && a.position < b.position)
}

/// Some slot of `s` is at table position `p`.
pub open spec fn has_position(s: Seq<VoiceSlot>, p: int) -> bool {
    exists|i: int| 0 <= i < s.len() && (#[trigger] s[i]).position == p
}

/// `s` lists one slot per table entry (index `idx[p]` at position `p`),
/// ordered by index, entries of equal index in table order.
pub open spec fn is_stable_order(s: Seq<VoiceSlot>, idx: Seq<usize>) -> bool {
    &&& s.len() == idx.len()
    &&& forall|i: int| 0 <= i < s.len() ==> (#[trigger] s[i]).position < idx.len()
        && s[i].index == idx[s[i].position as int]
    &&& forall|p: int| 0 <= p < idx.len() ==> #[trigger] has_position(s, p)
    &&& forall|i: int, j: int| 0 <= i < j < s.len() ==> slot_lt(#[trigger] s[i], #[trigger] s[j])
}

/// The voices of a table sorted by index (ties in table order).
pub open spec fn stable_order(idx: Seq<usize>) -> Seq<VoiceSlot> {
    choose|s: Seq<VoiceSlot>| is_stable_order(s, idx)
}

/// Inserts `x` into a strictly ordered sequence of slots.
spec fn insert_slot(s: Seq<VoiceSlot>, x: VoiceSlot) -> Seq<VoiceSlot>
    decreases s.len(),
{
    if s.len() == 0 {
        seq![x]
    } else if slot_lt(x, s.last()) {
        insert_slot(s.drop_last(), x).push(s.last())
    } else {
        s.push(x)
    }
}

/// The slots of `idx` inserted one by one.
spec fn insertion_order(idx: Seq<usize>) -> Seq<VoiceSlot>
    decreases idx.len(),
{
    if idx.len() == 0 {
        Seq::empty()
    } else {
        insert_slot(insertion_order(idx.drop_last()), VoiceSlot { index: idx.last(), position: (idx.len() - 1) as usize })
    }
}

proof fn lemma_insert_slot(s: Seq<VoiceSlot>, x: VoiceSlot)
    requires
        forall|i: int, j: int| 0 <= i < j < s.len() ==> slot_lt(#[trigger] s[i], #[trigger] s[j]),
        !s.contains(x),
    ensures
        insert_slot(s, x).len() == s.len() + 1,
        forall|y: VoiceSlot| insert_slot(s, x).contains(y) <==> (s.contains(y) || y == x),
        forall|i: int, j: int| 0 <= i < j < insert_slot(s, x).len() ==> slot_lt(
            #[trigger] insert_slot(s, x)[i],
            #[trigger] insert_slot(s, x)[j],
        ),
    decreases s.len(),
{
    let r = insert_slot(s, x);
    if s.len() == 0 {
        assert forall|y: VoiceSlot| r.contains(y) <==> (s.contains(y) || y == x) by {
            if r.contains(y) {
                assert(r[0] == x);
            }
            if y == x {
                assert(r[0] == x);
            }
        }
    } else if slot_lt(x, s.last()) {
        let p = s.drop_last();
        assert forall|i: int, j: int| 0 <= i < j < p.len() implies slot_lt(#[trigger] p[i], #[trigger] p[j]) by {
            assert(p[i] == s[i] && p[j] == s[j]);
        }
        assert(!p.contains(x)) by {
            if p.contains(x) {
                let k = choose|k: int| 0 <= k < p.len() && p[k] == x;
                assert(s[k] == x);
            }
        }
        lemma_insert_slot(p, x);
        let q = insert_slot(p, x);
        assert(r == q.push(s.last()));
        assert forall|y: VoiceSlot| r.contains(y) <==> (s.contains(y) || y == x) by {
            if r.contains(y) {
                let k = choose|k: int| 0 <= k < r.len() && r[k] == y;
                if k < q.len() {
                    assert(q[k] == y);
                    assert(q.contains(y));
                    if p.contains(y) {
                        let m = choose|m: int| 0 <= m < p.len() && p[m] == y;
                        assert(s[m] == y);
                    }
                } else {
                    assert(y == s.last());
                    assert(s[s.len() - 1] == y);
                }
            }
            if s.contains(y) {
                let k = choose|k: int| 0 <= k < s.len() && s[k] == y;
                if k == s.len() - 1 {
                    assert(r[r.len() - 1] == y);
                } else {
                    assert(p[k] == y);
                    assert(p.contains(y));
                    let m = choose|m: int| 0 <= m < q.len() && q[m] == y;
                    assert(r[m] == y);
                }
            }
            if y == x {
                assert(q.contains(x));
                let m = choose|m: int| 0 <= m < q.len() && q[m] == x;
                assert(r[m] == x);
            }
        }
        assert forall|i: int, j: int| 0 <= i < j < r.len() implies slot_lt(#[trigger] r[i], #[trigger] r[j]) by {
            if j == r.len() - 1 {
                assert(q.contains(q[i]));
                if q[i] != x {
                    assert(p.contains(q[i]));
                    let m = choose|m: int| 0 <= m < p.len() && p[m] == q[i];
                    assert(s[m] == q[i]);
                    assert(slot_lt(s[m], s[s.len() - 1]));
                }
            } else {
                assert(r[i] == q[i] && r[j] == q[j]);
            }
        }
    } else {
        assert forall|y: VoiceSlot| r.contains(y) <==> (s.contains(y) || y == x) by {
            if r.contains(y) {
                let k = choose|k: int| 0 <= k < r.len() && r[k] == y;
                if k < s.len() {
                    assert(s[k] == y);
                }
            }
            if s.contains(y) {
                let k = choose|k: int| 0 <= k < s.len() && s[k] == y;
                assert(r[k] == y);
            }
            if y == x {
                assert(r[s.len() as int] == x);
            }
        }
        assert(s.last() != x) by {
            assert(s[s.len() - 1] == s.last());
        }
        assert forall|i: int, j: int| 0 <= i < j < r.len() implies slot_lt(#[trigger] r[i], #[trigger] r[j]) by {
            if j == s.len() {
                if i < s.len() - 1 {
                    assert(slot_lt(s[i], s[s.len() - 1]));
                }
            } else {
                assert(r[i] == s[i] && r[j] == s[j]);
            }
        }
    }
}

proof fn lemma_insertion_order(idx: Seq<usize>)
    requires
        idx.len() <= usize::MAX,
    ensures
        is_stable_order(insertion_order(idx), idx),
    decreases idx.len(),
{
    let s = insertion_order(idx);
    if idx.len() == 0 {
    } else {
        let pre = idx.drop_last();
        let n = idx.len() - 1;
        lemma_insertion_order(pre);
        let t = insertion_order(pre);
        let x = VoiceSlot { index: idx.last(), position: n as usize };
        assert(!t.contains(x)) by {
            if t.contains(x) {
                let k = choose|k: int| 0 <= k < t.len() && t[k] == x;
                assert(t[k].position < pre.len());
            }
        }
        lemma_insert_slot(t, x);
        assert(s == insert_slot(t, x));
        assert forall|i: int| 0 <= i < s.len() implies (#[trigger] s[i]).position < idx.len()
            && s[i].index == idx[s[i].position as int] by {
            assert(s.contains(s[i]));
            if s[i] != x {
                assert(t.contains(s[i]));
                let k = choose|k: int| 0 <= k < t.len() && t[k] == s[i];
                assert(t[k].position < pre.len());
                assert(pre[t[k].position as int] == idx[t[k].position as int]);
            }
        }
        assert forall|p: int| 0 <= p < idx.len() implies #[trigger] has_position(s, p) by {
            if p == n {
                assert(s.contains(x));
                let k = choose|k: int| 0 <= k < s.len() && s[k] == x;
                assert(s[k].position == p);
            } else {
                assert(has_position(t, p));
                let k = choose|k: int| 0 <= k < t.len() && (#[trigger] t[k]).position == p;
                assert(t.contains(t[k]));
                assert(s.contains(t[k]));
                let m = choose|m: int| 0 <= m < s.len() && s[m] == t[k];
                assert(s[m].position == p);
            }
        }
    }
}

/// The stable order of a table's indices exists and is unique.
pub proof fn lemma_stable_order(idx: Seq<usize>)
    requires
        idx.len() <= usize::MAX,
    ensures
        is_stable_order(stable_order(idx), idx),
{
    lemma_insertion_order(idx);
}

/// The sorted voices of a table, or the error of its first bad key.
pub open spec fn spec_voice_slots(keys: Seq<Seq<char>>, section: Seq<char>) -> Result<Seq<VoiceSlot>, ValidationErrorView> {
    match spec_key_indices(keys, section) {
        Ok(idx) => Ok(stable_order(idx)),
        Err(e) => Err(e),
    }
}

proof fn lemma_strictly_sorted_contains(s: Seq<VoiceSlot>, x: VoiceSlot)
    requires
        forall|i: int, j: int| 0 <= i < j < s.len() ==> slot_lt(#[trigger] s[i], #[trigger] s[j]),
        s.len() > 0,
    ensures
        s.drop_first().contains(x) <==> (s.contains(x) && x != s[0]),
{
    if s.drop_first().contains(x) {
        let k = choose|k: int| 0 <= k < s.drop_first().len() && s.drop_first()[k] == x;
        assert(s[k + 1] == x);
        assert(slot_lt(s[0], s[k + 1]));
    }
    if s.contains(x) && x != s[0] {
        let k = choose|k: int| 0 <= k < s.len() && s[k] == x;
        assert(k > 0);
        assert(s.drop_first()[k - 1] == x);
    }
}

/// Two strictly ordered sequences with the same elements are equal.
proof fn lemma_sorted_unique(a: Seq<VoiceSlot>, b: Seq<VoiceSlot>)
    requires
        a.len() == b.len(),
        forall|i: int, j: int| 0 <= i < j < a.len() ==> slot_lt(#[trigger] a[i], #[trigger] a[j]),
        forall|i: int, j: int| 0 <= i < j < b.len() ==> slot_lt(#[trigger] b[i], #[trigger] b[j]),
        forall|x: VoiceSlot| a.contains(x) <==> b.contains(x),
    ensures
        a == b,
    decreases a.len(),
{
    if a.len() == 0 {
        assert(a =~= b);
    } else {
        assert(a.contains(a[0]));
        assert(b.contains(b[0]));
        let j = choose|j: int| 0 <= j < b.len() && b[j] == a[0];
        let k = choose|k: int| 0 <= k < a.len() && a[k] == b[0];
        if j > 0 {
            assert(slot_lt(b[0], b[j]));
            if k > 0 {
                assert(slot_lt(a[0], a[k]));
            }
            assert(false);
        }
        assert(a[0] == b[0]);
        assert forall|x: VoiceSlot| a.drop_first().contains(x) <==> b.drop_first().contains(x) by {
            lemma_strictly_sorted_contains(a, x);
            lemma_strictly_sorted_contains(b, x);
        }
        lemma_sorted_unique(a.drop_first(), b.drop_first());
        assert(a =~= b) by {
            assert forall|i: int| 0 <= i < a.len() implies a[i] == b[i] by {
                if i > 0 {
                    assert(a[i] == a.drop_first()[i - 1]);
                    assert(b[i] == b.drop_first()[i - 1]);
                }
            }
        }
    }
}

/// A stable order is the stable order.
proof fn lemma_stable_order_is(s: Seq<VoiceSlot>, idx: Seq<usize>)
    requires
        is_stable_order(s, idx),
    ensures
        stable_order(idx) == s,
{
    let t = stable_order(idx);
    assert(is_stable_order(t, idx));
    assert forall|x: VoiceSlot| s.contains(x) <==> t.contains(x) by {
        if s.contains(x) {
            let i = choose|i: int| 0 <= i < s.len() && s[i] == x;
            let p = s[i].position as int;
            assert(has_position(t, p));
            let k = choose|k: int| 0 <= k < t.len() && (#[trigger] t[k]).position == p;
            assert(t[k] == x);
        }
        if t.contains(x) {
            let i = choose|i: int| 0 <= i < t.len() && t[i] == x;
            let p = t[i].position as int;
            assert(has_position(s, p));
            let k = choose|k: int| 0 <= k < s.len() && (#[trigger] s[k]).position == p;
            assert(s[k] == x);
        }
    }
    lemma_sorted_unique(s, t);
}

/// Parses the `voice_N` keys of a table into `(index, position)` slots
/// sorted by index (ties in table order). A key that is not `voice_`
/// followed by a number is rejected; the first such key in table order
/// is the one reported.
pub fn parse_voice_indices<V>(entries: &Vec<VoiceEntry<V>>, section_label: &str) -> (r: Result<Vec<VoiceSlot>, ValidationError>)
    ensures
        match r {
            Ok(s) => spec_voice_slots(voice_keys(entries@), section_label@) == Ok::<Seq<VoiceSlot>, ValidationErrorView>(s@),
            Err(e) => spec_voice_slots(voice_keys(entries@), section_label@) == Err::<Seq<VoiceSlot>, ValidationErrorView>(e@),
        },
        r matches Ok(s) ==> forall|i: int| 0 <= i < s@.len() ==> (#[trigger] s@[i]).position < entries@.len(),
{
    let ghost keys = voice_keys(entries@);
    let n = entries.len();
    let mut idx: Vec<usize> = Vec::with_capacity(n);
    let mut i: usize = 0;
    while i < n
        invariant
            i <= n,
            n == entries@.len(),
            keys == voice_keys(entries@),
            spec_key_indices(keys.take(i as int), section_label@) == Ok::<Seq<usize>, ValidationErrorView>(idx@),
            idx@.len() == i,
        decreases n - i,
    {
        let key = entries[i].key.as_str();
        proof {
            assert(keys.take(i + 1).drop_last() =~= keys.take(i as int));
            assert(keys.take(i + 1).last() == key@);
        }
        if !starts_with_voice_prefix(key) {
            proof {
                assert(spec_key_indices(keys.take(i + 1), section_label@) is Err);
                lemma_key_indices_err_extends(keys, section_label@, i + 1);
            }
            return Err(ValidationError::UnrecognizedVoiceKey {
                section: String::from_str(section_label),
                key: String::from_str(key),
            });
        }
        let parsed = parse_unsigned_from(key, 6);
        match parsed {
            None => {
                proof {
                    assert(spec_key_indices(keys.take(i + 1), section_label@) is Err);
                    lemma_key_indices_err_extends(keys, section_label@, i + 1);
                }
                return Err(ValidationError::NonNumericVoiceKey {
                    section: String::from_str(section_label),
                    key: String::from_str(key),
                });
            },
            Some(v) => {
                idx.push(v);
            },
        }
        i += 1;
    }
    assert(keys.take(n as int) =~= keys);
    let slots = stable_sort_slots(&idx);
    proof {
        assert forall|i: int| 0 <= i < slots@.len() implies (#[trigger] slots@[i]).position < entries@.len() by {
            assert(slots@[i].position < idx@.len());
        }
        lemma_stable_order_is(slots@, idx@);
    }
    Ok(slots)
}

/// Once a prefix of the keys fails, the whole table fails the same way.
proof fn lemma_key_indices_err_extends(keys: Seq<Seq<char>>, section: Seq<char>, i: int)
    requires
        0 <= i <= keys.len(),
        spec_key_indices(keys.take(i), section) is Err,
    ensures
        spec_key_indices(keys, section) == spec_key_indices(keys.take(i), section),
    decreases keys.len() - i,
{
    if i == keys.len() {
        assert(keys.take(i) =~= keys);
    } else {
        assert(keys.take(i + 1).drop_last() =~= keys.take(i));
        lemma_key_indices_err_extends(keys, section, i + 1);
    }
}

/// Sorts the slots `(idx[p], p)` by index, keeping ties in position order.
fn stable_sort_slots(idx: &Vec<usize>) -> (r: Vec<VoiceSlot>)
    ensures
        is_stable_order(r@, idx@),
{
    let n = idx.len();
    let mut s: Vec<VoiceSlot> = Vec::with_capacity(n);
    let mut p: usize = 0;
    while p < n
        invariant
            p <= n,
            n == idx@.len(),
            is_stable_order(s@, idx@.take(p as int)),
        decreases n - p,
    {
        let v = idx[p];
        let mut q: usize = 0;
        while q < s.len() && s[q].index <= v
            invariant
                q <= s@.len(),
                forall|k: int| 0 <= k < q ==> (#[trigger] s@[k]).index <= v,
            decreases s@.len() - q,
        {
            q += 1;
        }
        let ghost old_s = s@;
        let slot = VoiceSlot { index: v, position: p };
        proof {
            assert forall|k: int| q <= k < old_s.len() implies (#[trigger] old_s[k]).index > v by {
                if k > q {
                    assert(slot_lt(old_s[q as int], old_s[k]));
                }
            }
        }
        s.insert(q, slot);
        proof {
            let t = idx@.take(p as int + 1);
            assert(s@ =~= old_s.take(q as int).push(slot) + old_s.skip(q as int));
            assert forall|i: int| 0 <= i < s@.len() implies (#[trigger] s@[i]).position < t.len()
                && s@[i].index == t[s@[i].position as int] by {
                if i < q {
                    assert(s@[i] == old_s[i]);
                } else if i > q {
                    assert(s@[i] == old_s[i - 1]);
                }
            }
            assert forall|pp: int| 0 <= pp < t.len() implies #[trigger] has_position(s@, pp) by {
                if pp == p {
                    assert(s@[q as int].position == pp);
                } else {
                    assert(has_position(old_s, pp));
                    let i = choose|i: int| 0 <= i < old_s.len() && (#[trigger] old_s[i]).position == pp;
                    if i < q {
                        assert(s@[i] == old_s[i]);
                    } else {
                        assert(s@[i + 1] == old_s[i]);
                    }
                }
            }
            assert forall|i: int, j: int| 0 <= i < j < s@.len() implies slot_lt(#[trigger] s@[i], #[trigger] s@[j]) by {
                if j < q {
                    assert(slot_lt(old_s[i], old_s[j]));
                } else if j == q {
                    assert(old_s[i].index <= v);
                    assert(old_s[i].position < p);
                } else if i < q {
                    assert(slot_lt(old_s[i], old_s[j - 1]));
                } else if i == q {
                    assert(old_s[j - 1].index > v);
                } else {
                    assert(slot_lt(old_s[i - 1], old_s[j - 1]));
                }
            }
        }
        p += 1;
    }
    assert(idx@.take(n as int) =~= idx@);
    s
}

// --- Channel claims ----------------------------------------------------------

/// Record that a channel is claimed by the signal named `label`.
#[derive(Clone, Debug)]
pub struct ChannelClaim {
    pub channel: u8,
    pub label: String,
}

pub struct ChannelClaimView {
    pub channel: u8,
    pub label: Seq<char>,
}

impl View for ChannelClaim {
    type V = ChannelClaimView;

    open spec fn view(&self) -> ChannelClaimView {
        ChannelClaimView { channel: self.channel, label: self.label@ }
    }
}

/// The claims of a list, by view.
pub open spec fn claims_view(v: Seq<ChannelClaim>) -> Seq<ChannelClaimView> {
    v.map_values(|c: ChannelClaim| c@)
}

/// The first claim (in order) that repeats an earlier claim's channel,
/// with the earlier claim: `(earlier, later)`.
pub open spec fn first_duplicate(claims: Seq<ChannelClaimView>) -> Option<(int, int)>
    decreases claims.len(),
{
    if claims.len() == 0 {
        None
    } else {
        let prefix = claims.drop_last();
        match first_duplicate(prefix) {
            Some(d) => Some(d),
            None => if exists|i: int| 0 <= i < prefix.len() && prefix[i].channel == claims.last().channel {
                Some(
                    (
                        choose|i: int| 0 <= i < prefix.len() && prefix[i].channel == claims.last().channel,
                        claims.len() - 1,
                    ),
                )
            } else {
                None
            },
        }
    }
}

/// No two claims share a channel.
pub open spec fn channels_distinct(claims: Seq<ChannelClaimView>) -> bool {
    forall|i: int, j: int| 0 <= i < j < claims.len() ==> claims[i].channel != claims[j].channel
}

/// `Ok` when no channel is claimed twice; otherwise the error naming the
/// channel (as the file writes it) and both claimants of the first repeat.
pub open spec fn spec_validate_no_duplicates(claims: Seq<ChannelClaimView>) -> Result<(), ValidationErrorView> {
    match first_duplicate(claims) {
        None => Ok(()),
        Some((i, j)) => Err(
            ValidationErrorView::DuplicateChannel {
                channel: claims[j].channel,
                first: claims[i].label,
                second: claims[j].label,
            },
        ),
    }
}

/// There is no repeat exactly when all channels are distinct.
pub proof fn lemma_no_duplicate_iff_distinct(claims: Seq<ChannelClaimView>)
    ensures
        first_duplicate(claims) is None <==> channels_distinct(claims),
        first_duplicate(claims) matches Some((i, j)) ==> 0 <= i < j < claims.len()
            && claims[i].channel == claims[j].channel,
    decreases claims.len(),
{
    if claims.len() > 0 {
        let prefix = claims.drop_last();
        lemma_no_duplicate_iff_distinct(prefix);
        if first_duplicate(prefix) is Some {
            let (i, j) = first_duplicate(prefix).unwrap();
            assert(claims[i] == prefix[i] && claims[j] == prefix[j]);
        } else if exists|i: int| 0 <= i < prefix.len() && prefix[i].channel == claims.last().channel {
            let i = choose|i: int| 0 <= i < prefix.len() && prefix[i].channel == claims.last().channel;
            assert(claims[i] == prefix[i]);
        } else {
            assert forall|i: int, j: int| 0 <= i < j < claims.len() implies claims[i].channel != claims[j].channel by {
                assert(claims[i] == prefix[i]);
                if j < claims.len() - 1 {
                    assert(claims[j] == prefix[j]);
                }
            }
        }
    }
}

/// Asserts that no two signals across the whole configuration want the
/// same MIDI channel; the error names both claimants.
pub fn validate_no_duplicates(claims: &Vec<ChannelClaim>) -> (r: Result<(), ValidationError>)
    ensures
        result_view(r) == spec_validate_no_duplicates(claims_view(claims@)),
{
    let ghost cv = claims_view(claims@);
    let mut owners: HashMap<u8, String> = HashMap::new();
    let n = claims.len();
    let mut j: usize = 0;
    while j < n
        invariant
            j <= n,
            n == claims@.len(),
            cv == claims_view(claims@),
            first_duplicate(cv.take(j as int)) is None,
            forall|c: u8| owners@.contains_key(c) <==> exists|i: int| 0 <= i < j && (#[trigger] cv[i]).channel == c,
            forall|i: int| 0 <= i < j ==> owners@[(#[trigger] cv[i]).channel]@ == cv[i].label,
        decreases n - j,
    {
        let claim = &claims[j];
        let ghost pre = cv.take(j as int);
        proof {
            assert(cv.take(j + 1).drop_last() =~= pre);
            assert(cv.take(j + 1).last() == cv[j as int]);
            lemma_no_duplicate_iff_distinct(pre);
        }
        match owners.get(&claim.channel) {
            Some(prior) => {
                let ghost i = choose|i: int| 0 <= i < j && (#[trigger] cv[i]).channel == claim.channel;
                proof {
                    assert(pre[i] == cv[i]);
                    assert(exists|i: int| 0 <= i < pre.len() && pre[i].channel == cv.take(j + 1).last().channel);
                    let i2 = choose|i: int| 0 <= i < pre.len() && pre[i].channel == cv.take(j + 1).last().channel;
                    assert(pre[i2] == cv[i2]);
                    assert(i2 == i);
                    assert(first_duplicate(cv.take(j + 1)) == Some((i, j as int)));
                    lemma_duplicate_extends(cv, j as int + 1);
                }
                return Err(ValidationError::DuplicateChannel {
                    channel: claim.channel,
                    first: String::from_str(prior.as_str()),
                    second: String::from_str(claim.label.as_str()),
                });
            },
            None => {},
        }
        proof {
            assert(!exists|i: int| 0 <= i < pre.len() && pre[i].channel == cv.take(j + 1).last().channel) by {
                if exists|i: int| 0 <= i < pre.len() && pre[i].channel == cv.take(j + 1).last().channel {
                    let i = choose|i: int| 0 <= i < pre.len() && pre[i].channel == cv.take(j + 1).last().channel;
                    assert(pre[i] == cv[i]);
                    assert(owners@.contains_key(claim.channel));
                }
            }
        }
        owners.insert(claim.channel, String::from_str(claim.label.as_str()));
        j += 1;
    }
    assert(cv.take(n as int) =~= cv);
    Ok(())
}

/// Once a prefix holds a repeat, the whole list reports that repeat.
proof fn lemma_duplicate_extends(claims: Seq<ChannelClaimView>, i: int)
    requires
        0 <= i <= claims.len(),
        first_duplicate(claims.take(i)) is Some,
    ensures
        first_duplicate(claims) == first_duplicate(claims.take(i)),
    decreases claims.len() - i,
{
    if i == claims.len() {
        assert(claims.take(i) =~= claims);
    } else {
        assert(claims.take(i + 1).drop_last() =~= claims.take(i));
        lemma_duplicate_extends(claims, i + 1);
    }
}


// --- Chains ------------------------------------------------------------------

/// The first watched site (in order) that the chain does not have.
pub open spec fn first_missing_site(sites: Seq<usize>, n_sites: usize) -> Option<usize>
    decreases sites.len(),
{
    if sites.len() == 0 {
        None
    } else {
        match first_missing_site(sites.drop_last(), n_sites) {
            Some(s) => Some(s),
            None => if sites.last() >= n_sites {
                Some(sites.last())
            } else {
                None
            },
        }
    }
}

proof fn lemma_missing_site_extends(sites: Seq<usize>, n_sites: usize, i: int)
    requires
        0 <= i <= sites.len(),
        first_missing_site(sites.take(i), n_sites) is Some,
    ensures
        first_missing_site(sites, n_sites) == first_missing_site(sites.take(i), n_sites),
    decreases sites.len() - i,
{
    if i == sites.len() {
        assert(sites.take(i) =~= sites);
    } else {
        assert(sites.take(i + 1).drop_last() =~= sites.take(i));
        lemma_missing_site_extends(sites, n_sites, i + 1);
    }
}

/// The physics block that applies to a chain: its own, else the shared one.
pub open spec fn chain_physics(section: ChainSection, shared: Option<PhysicsSection>) -> Option<PhysicsSection> {
    match section.physics {
        Some(p) => Some(p),
        None => shared,
    }
}

/// The channel claims of a chain: gate voices, wall voices, the clock, and
/// the modulation stream when it is enabled.
pub open spec fn chain_claims(
    label: Seq<char>,
    gate_claims: Seq<ChannelClaimView>,
    wall_claims: Seq<ChannelClaimView>,
    clock_channel: u8,
    modulation: crate::config::ModulationConfig,
) -> Seq<ChannelClaimView> {
    gate_claims + wall_claims + seq![ChannelClaimView { channel: clock_channel, label: label + ".clock"@ }] + if modulation.enabled {
        seq![ChannelClaimView { channel: modulation.channel, label: label + ".modulation"@ }]
    } else {
        Seq::empty()
    }
}

pub open spec fn spec_build_chain(section: ChainSection, label: Seq<char>, shared: Option<PhysicsSection>) -> Result<
    (ChainConfigView, Seq<ChannelClaimView>),
    ValidationErrorView,
> {
    let physics = spec_build_physics(chain_physics(section, shared));
    match spec_build_midi(section.gates, label) {
        Err(e) => Err(e),
        Ok((midi, gate_claims)) => match spec_build_walls(section.walls, label) {
            Err(e) => Err(e),
            Ok((walls, wall_midi, wall_claims)) => match spec_build_clock(section.clock, label) {
                Err(e) => Err(e),
                Ok(clock) => match spec_build_events(section.gates, label) {
                    Err(e) => Err(e),
                    Ok(events) => match spec_build_modulation(
                        section.modulation,
                        label,
                        if midi.voice_channels.len() > 0 { Some(midi.voice_channels[0]) } else { None },
                    ) {
                        Err(e) => Err(e),
                        Ok(modulation) => match spec_build_quantize(section.quantize, label) {
                            Err(e) => Err(e),
                            Ok(quantize) => match spec_build_chords(section.chords, midi.voice_channels.len() as usize, label) {
                                Err(e) => Err(e),
                                Ok(chords) => match first_missing_site(events.output_sites, physics.n_sites) {
                                    Some(site) => Err(
                                        ValidationErrorView::SiteOutOfRange { chain: label, site, n_sites: physics.n_sites },
                                    ),
                                    None => Ok(
                                        (
                                            ChainConfigView {
                                                physics,
                                                events,
                                                midi,
                                                clock,
                                                walls,
                                                wall_midi,
                                                modulation,
                                                quantize,
                                                chords,
                                                seed: section.seed.unwrap_or(47),
                                                emit_stride: 1,
                                            },
                                            chain_claims(label, gate_claims, wall_claims, clock.channel, modulation),
                                        ),
                                    ),
                                },
                            },
                        },
                    },
                },
            },
        },
    }
}

/// One chain's configuration with the channels it claims. The chain's own
/// physics block wins over the shared one; every gate voice must name an
/// existing site.
#[verifier::loop_isolation(false)]
pub fn build_chain(section: &ChainSection, label: &str, shared_physics: Option<PhysicsSection>) -> (r: Result<
    (ChainConfig, Vec<ChannelClaim>),
    ValidationError,
>)
    ensures
        match r {
            Ok((c, cl)) => spec_build_chain(*section, label@, shared_physics) == Ok::<(ChainConfigView, Seq<ChannelClaimView>), ValidationErrorView>((c@, claims_view(cl@))),
            Err(e) => spec_build_chain(*section, label@, shared_physics) == Err::<(ChainConfigView, Seq<ChannelClaimView>), ValidationErrorView>(e@),
        },
{
    let physics_section = match section.physics {
        Some(p) => Some(p),
        None => shared_physics,
    };
    let physics = build_physics(physics_section);
    let seed = match section.seed { Some(s) => s, None => 47 };
    let (midi, gate_claims) = build_midi(&section.gates, label)?;
    let (walls, wall_midi, wall_claims) = build_walls(&section.walls, label)?;
    let clock = build_clock(&section.clock, label)?;
    let events = build_events(&section.gates, label)?;
    let fallback = if midi.voice_channels.len() > 0 { Some(midi.voice_channels[0]) } else { None };
    proof {
        let slots = spec_voice_slots(voice_keys(section.gates.voices@), label@ + ".gates"@)->Ok_0;
        lemma_gate_voices_channels(section.gates.voices@, label@, slots);
        if midi.voice_channels.len() > 0 {
            let v = spec_gate_voices(section.gates.voices@, label@, slots)->Ok_0;
            assert(midi.voice_channels@[0] == v[0].channel);
        }
    }
    let modulation = build_modulation(&section.modulation, label, fallback)?;
    let quantize = build_quantize(&section.quantize, label)?;
    let chords = build_chords(&section.chords, midi.voice_channels.len(), label)?;
    let mut k: usize = 0;
    while k < events.output_sites.len()
        invariant
            k <= events.output_sites@.len(),
            first_missing_site(events.output_sites@.take(k as int), physics.n_sites) is None,
        decreases events.output_sites@.len() - k,
    {
        let site = events.output_sites[k];
        assert(events.output_sites@.take(k + 1).drop_last() =~= events.output_sites@.take(k as int));
        if site >= physics.n_sites {
            proof {
                lemma_missing_site_extends(events.output_sites@, physics.n_sites, k + 1);
            }
            return Err(ValidationError::SiteOutOfRange { chain: String::from_str(label), site, n_sites: physics.n_sites });
        }
        k += 1;
    }
    assert(events.output_sites@.take(events.output_sites@.len() as int) =~= events.output_sites@);
    let ghost gc = claims_view(gate_claims@);
    let ghost wc = claims_view(wall_claims@);
    let mut claims = gate_claims;
    let mut wall_claims = wall_claims;
    claims.append(&mut wall_claims);
    claims.push(ChannelClaim { channel: clock.channel, label: concat2(label, ".clock") });
    if modulation.enabled {
        claims.push(ChannelClaim { channel: modulation.channel, label: concat2(label, ".modulation") });
    }
    proof {
        let expected = chain_claims(label@, gc, wc, clock.channel, modulation);
        assert(claims_view(claims@) =~= expected) by {
            assert forall|i: int| 0 <= i < claims@.len() implies claims_view(claims@)[i] == expected[i] by {}
        }
    }
    let chain_cfg = ChainConfig {
        physics,
        events,
        midi,
        clock,
        walls,
        wall_midi,
        modulation,
        quantize,
        chords,
        seed,
        emit_stride: 1,
    };
    Ok((chain_cfg, claims))
}

// --- Whole file --------------------------------------------------------------

/// What the file's schema turns into: the configuration, or the first
/// failure in the order chain_a, chain_b (and its tick match), input,
/// coupling, channel uniqueness across both chains.
pub open spec fn spec_into_config(t: TomlConfig) -> Result<ConfigView, ValidationErrorView> {
    let tempo = match t.tempo {
        Some(x) => TempoConfig { bpm: x.bpm },
        None => default_tempo(),
    };
    let osc = spec_build_osc(t.osc);
    match spec_build_chain(t.chain_a, "chain_a"@, t.physics) {
        Err(e) => Err(e),
        Ok((a, ca)) => {
            let rb: Result<(Option<ChainConfigView>, Seq<ChannelClaimView>), ValidationErrorView> = match t.chain_b {
                None => Ok((None, Seq::empty())),
                Some(sb) => match spec_build_chain(sb, "chain_b"@, t.physics) {
                    Err(e) => Err(e),
                    Ok((b, cb)) => if b.physics.ticks_per_period != a.physics.ticks_per_period {
                        Err(ValidationErrorView::TicksPerPeriodMismatch)
                    } else {
                        Ok((Some(b), cb))
                    },
                },
            };
            match rb {
                Err(e) => Err(e),
                Ok((b, cb)) => match spec_build_input(t.input) {
                    Err(e) => Err(e),
                    Ok(input) => match spec_build_coupling(t.coupling) {
                        Err(e) => Err(e),
                        Ok(coupling) => match spec_validate_no_duplicates(ca + cb) {
                            Err(e) => Err(e),
                            Ok(_) => Ok(ConfigView { chain_a: a, chain_b: b, coupling, tempo, osc, input }),
                        },
                    },
                },
            }
        },
    }
}

impl TomlConfig {
    /// Validates the file's contents and produces the runtime `Config`.
    pub fn into_config(self) -> (r: Result<Config, ValidationError>)
        ensures
            match r {
                Ok(c) => spec_into_config(self) == Ok::<ConfigView, ValidationErrorView>(c@),
                Err(e) => spec_into_config(self) == Err::<ConfigView, ValidationErrorView>(e@),
            },
    {
        let tempo = match self.tempo {
            Some(t) => TempoConfig::from_bpm(t.bpm),
            None => TempoConfig::default(),
        };
        let osc = build_osc(&self.osc);
        let (chain_a, claims_a) = build_chain(&self.chain_a, "chain_a", self.physics)?;
        let (chain_b, claims_b) = match &self.chain_b {
            Some(section) => {
                let (cfg, claims) = build_chain(section, "chain_b", self.physics)?;
                if cfg.physics.ticks_per_period != chain_a.physics.ticks_per_period {
                    return Err(ValidationError::TicksPerPeriodMismatch);
                }
                (Some(cfg), claims)
            },
            None => {
                let empty: Vec<ChannelClaim> = Vec::new();
                assert(claims_view(empty@) =~= Seq::<ChannelClaimView>::empty());
                (None, empty)
            },
        };
        let input = build_input(&self.input)?;
        let coupling = build_coupling(&self.coupling)?;
        let ghost ca = claims_view(claims_a@);
        let ghost cb = claims_view(claims_b@);
        let mut all_claims = claims_a;
        let mut claims_b = claims_b;
        all_claims.append(&mut claims_b);
        assert(claims_view(all_claims@) =~= ca + cb);
        validate_no_duplicates(&all_claims)?;
        Ok(Config { chain_a, chain_b, coupling, tempo, osc, input })
    }
}

} // verus!
