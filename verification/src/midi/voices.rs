//! The voices held down at a point of the merged timeline.
//!
//! A voice is keyed by its channel and pitch and carries the velocity of its
//! latest press. The held voices are kept as a list in ascending key order,
//! with no key twice: an ordered map from key to velocity.

use vstd::prelude::*;

verus! {

/// A held voice: `(channel, pitch, velocity)`.
pub type Voice = (u8, u8, u8);

/// The key of a voice: `(channel, pitch)`.
pub open spec fn voice_key(v: Voice) -> (u8, u8) {
    (v.0, v.1)
}

/// Strict order of keys: by channel, then by pitch.
pub open spec fn key_lt(a: (u8, u8), b: (u8, u8)) -> bool {
    a.0 < b.0 || (a.0 == b.0 && a.1 < b.1)
}

/// Keys strictly ascending, hence none held twice.
pub open spec fn keys_ascending(s: Seq<Voice>) -> bool {
    forall|i: int, j: int| 0 <= i < j < s.len() ==> key_lt(voice_key(#[trigger] s[i]), voice_key(#[trigger] s[j]))
}

/// Whether a voice with key `k` is held.
pub open spec fn held_contains(s: Seq<Voice>, k: (u8, u8)) -> bool {
    exists|i: int| 0 <= i < s.len() && voice_key(#[trigger] s[i]) == k
}

/// The held voices after a press: the voice of the same key takes the new
/// velocity, or the voice joins at its place in key order.
pub open spec fn held_insert(s: Seq<Voice>, v: Voice) -> Seq<Voice>
    decreases s.len(),
{
    if s.len() == 0 {
        seq![v]
    } else if voice_key(s[0]) == voice_key(v) {
        seq![v] + s.skip(1)
    } else if key_lt(voice_key(v), voice_key(s[0])) {
        seq![v] + s
    } else {
        seq![s[0]] + held_insert(s.skip(1), v)
    }
}

/// The held voices after the voice of key `k` is let go (unchanged if none is held).
pub open spec fn held_remove(s: Seq<Voice>, k: (u8, u8)) -> Seq<Voice>
    decreases s.len(),
{
    if s.len() == 0 {
        s
    } else if voice_key(s[0]) == k {
        s.skip(1)
    } else {
        seq![s[0]] + held_remove(s.skip(1), k)
    }
}

/// `(velocity, pitch)` of the loudest held voice, the higher pitch winning
/// among equally loud ones; `None` when nothing is held.
pub open spec fn loudest(s: Seq<Voice>) -> Option<(u8, u8)>
    decreases s.len(),
{
    if s.len() == 0 {
        None
    } else {
        let v = s.last();
        match loudest(s.drop_last()) {
            None => Some((v.2, v.1)),
            Some(b) => if v.2 > b.0 || (v.2 == b.0 && v.1 >= b.1) { Some((v.2, v.1)) } else { Some(b) },
        }
    }
}

fn voice_key_of(v: &Voice) -> (k: (u8, u8))
    ensures
        k == voice_key(*v),
{
    (v.0, v.1)
}

fn key_less(a: (u8, u8), b: (u8, u8)) -> (r: bool)
    ensures
        r == key_lt(a, b),
{
    a.0 < b.0 || (a.0 == b.0 && a.1 < b.1)
}

proof fn lemma_insert_keys(s: Seq<Voice>, v: Voice)
    ensures
        forall|i: int| 0 <= i < held_insert(s, v).len() ==>
            voice_key(#[trigger] held_insert(s, v)[i]) == voice_key(v) || held_contains(s, voice_key(held_insert(s, v)[i])),
        held_insert(s, v).len() >= 1,
        held_insert(s, v)[0] == v || held_insert(s, v)[0] == s[0],
    decreases s.len(),
{
    if s.len() > 0 {
        let t = s.skip(1);
        lemma_insert_keys(t, v);
        let r = held_insert(s, v);
        assert forall|i: int| 0 <= i < r.len() implies
            voice_key(#[trigger] r[i]) == voice_key(v) || held_contains(s, voice_key(r[i])) by {
            if voice_key(s[0]) == voice_key(v) {
                if i > 0 {
                    assert(r[i] == s[i]);
                }
            } else if key_lt(voice_key(v), voice_key(s[0])) {
                if i > 0 {
                    assert(r[i] == s[i - 1]);
                }
            } else if i == 0 {
                assert(r[0] == s[0]);
            } else {
                let x = held_insert(t, v)[i - 1];
                assert(r[i] == x);
                if voice_key(x) != voice_key(v) {
                    let j = choose|j: int| 0 <= j < t.len() && voice_key(#[trigger] t[j]) == voice_key(x);
                    assert(s[j + 1] == t[j]);
                }
            }
        }
    }
}

/// Letting go a voice that is not held changes nothing.
pub proof fn lemma_remove_absent(s: Seq<Voice>, k: (u8, u8))
    requires
        !held_contains(s, k),
    ensures
        held_remove(s, k) == s,
    decreases s.len(),
{
    if s.len() > 0 {
        let t = s.skip(1);
        assert(voice_key(s[0]) != k);
        assert(!held_contains(t, k)) by {
            if held_contains(t, k) {
                let j = choose|j: int| 0 <= j < t.len() && voice_key(#[trigger] t[j]) == k;
                assert(s[j + 1] == t[j]);
            }
        }
        lemma_remove_absent(t, k);
        assert(seq![s[0]] + t =~= s);
    }
}

/// Law: a press keeps the held voices in ascending key order.
pub proof fn lemma_insert_ascending(s: Seq<Voice>, v: Voice)
    requires
        keys_ascending(s),
    ensures
        keys_ascending(held_insert(s, v)),
    decreases s.len(),
{
    if s.len() > 0 {
        let t = s.skip(1);
        assert(keys_ascending(t)) by {
            assert forall|i: int, j: int| 0 <= i < j < t.len() implies key_lt(voice_key(#[trigger] t[i]), voice_key(#[trigger] t[j])) by {
                assert(t[i] == s[i + 1] && t[j] == s[j + 1]);
            }
        }
        let r = held_insert(s, v);
        if voice_key(s[0]) == voice_key(v) {
            assert forall|i: int, j: int| 0 <= i < j < r.len() implies key_lt(voice_key(#[trigger] r[i]), voice_key(#[trigger] r[j])) by {
                if i == 0 {
                    assert(key_lt(voice_key(s[0]), voice_key(s[j])));
                } else {
                    assert(r[i] == s[i] && r[j] == s[j]);
                }
            }
        } else if key_lt(voice_key(v), voice_key(s[0])) {
            assert forall|i: int, j: int| 0 <= i < j < r.len() implies key_lt(voice_key(#[trigger] r[i]), voice_key(#[trigger] r[j])) by {
                if i == 0 {
                    if j > 1 {
                        assert(key_lt(voice_key(s[0]), voice_key(s[j - 1])));
                    }
                } else {
                    assert(r[i] == s[i - 1] && r[j] == s[j - 1]);
                }
            }
        } else {
            lemma_insert_ascending(t, v);
            lemma_insert_keys(t, v);
            let u = held_insert(t, v);
            assert forall|i: int, j: int| 0 <= i < j < r.len() implies key_lt(voice_key(#[trigger] r[i]), voice_key(#[trigger] r[j])) by {
                if i == 0 {
                    let x = u[j - 1];
                    assert(r[j] == x);
                    if voice_key(x) != voice_key(v) {
                        let m = choose|m: int| 0 <= m < t.len() && voice_key(#[trigger] t[m]) == voice_key(x);
                        assert(s[m + 1] == t[m]);
                    }
                } else {
                    assert(r[i] == u[i - 1] && r[j] == u[j - 1]);
                }
            }
        }
    }
}

/// Law: letting a voice go keeps the held voices in ascending key order.
pub proof fn lemma_remove_ascending(s: Seq<Voice>, k: (u8, u8))
    requires
        keys_ascending(s),
    ensures
        keys_ascending(held_remove(s, k)),
        forall|i: int| 0 <= i < held_remove(s, k).len() ==> held_contains(s, voice_key(#[trigger] held_remove(s, k)[i])),
    decreases s.len(),
{
    if s.len() > 0 {
        let t = s.skip(1);
        assert(keys_ascending(t)) by {
            assert forall|i: int, j: int| 0 <= i < j < t.len() implies key_lt(voice_key(#[trigger] t[i]), voice_key(#[trigger] t[j])) by {
                assert(t[i] == s[i + 1] && t[j] == s[j + 1]);
            }
        }
        lemma_remove_ascending(t, k);
        let r = held_remove(s, k);
        let u = held_remove(t, k);
        assert forall|i: int| 0 <= i < r.len() implies held_contains(s, voice_key(#[trigger] r[i])) by {
            if voice_key(s[0]) == k {
                assert(r[i] == s[i + 1]);
            } else if i == 0 {
                assert(r[0] == s[0]);
            } else {
                assert(r[i] == u[i - 1]);
                let m = choose|m: int| 0 <= m < t.len() && voice_key(#[trigger] t[m]) == voice_key(u[i - 1]);
                assert(s[m + 1] == t[m]);
            }
        }
        if voice_key(s[0]) != k {
            assert forall|i: int, j: int| 0 <= i < j < r.len() implies key_lt(voice_key(#[trigger] r[i]), voice_key(#[trigger] r[j])) by {
                if i == 0 {
                    assert(r[j] == u[j - 1]);
                    let m = choose|m: int| 0 <= m < t.len() && voice_key(#[trigger] t[m]) == voice_key(u[j - 1]);
                    assert(s[m + 1] == t[m]);
                } else {
                    assert(r[i] == u[i - 1] && r[j] == u[j - 1]);
                }
            }
        }
    }
}

/// Press: hold voice `v`, replacing the velocity of a voice of the same key.
pub fn hold(held: &mut Vec<Voice>, v: Voice)
    ensures
        final(held)@ == held_insert(old(held)@, v),
{
    let ghost s = held@;
    let k = voice_key_of(&v);
    let mut i: usize = 0;
    assert(s.skip(0) =~= s);
    while i < held.len() && key_less(voice_key_of(&held[i]), k)
        invariant
            held@ == s,
            k == voice_key(v),
            i <= s.len(),
            held_insert(s, v) == s.take(i as int) + held_insert(s.skip(i as int), v),
        decreases s.len() - i,
    {
        let ghost t = s.skip(i as int);
        assert(t[0] == s[i as int]);
        assert(t.skip(1) =~= s.skip(i as int + 1));
        assert(key_lt(voice_key(t[0]), voice_key(v)));
        assert(held_insert(t, v) == seq![t[0]] + held_insert(t.skip(1), v));
        assert(s.take(i as int) + seq![s[i as int]] =~= s.take(i as int + 1));
        assert(s.take(i as int + 1) + held_insert(s.skip(i as int + 1), v) =~= s.take(i as int) + (seq![t[0]] + held_insert(t.skip(1), v)));
        i += 1;
    }
    if i < held.len() && held[i].0 == v.0 && held[i].1 == v.1 {
        let ghost t = s.skip(i as int);
        assert(t[0] == s[i as int]);
        assert(t.skip(1) =~= s.skip(i as int + 1));
        held.set(i, v);
        assert(held@ =~= s.take(i as int) + (seq![v] + t.skip(1)));
    } else {
        proof {
            if i < s.len() {
                let t = s.skip(i as int);
                assert(t[0] == s[i as int]);
                assert(key_lt(voice_key(v), voice_key(t[0])));
            } else {
                assert(s.skip(i as int).len() == 0);
            }
        }
        held.insert(i, v);
        assert(held@ =~= s.take(i as int) + (seq![v] + s.skip(i as int)));
    }
}

/// Release: let go the voice of key `k`; `true` when one was held.
pub fn release(held: &mut Vec<Voice>, k: (u8, u8)) -> (was_held: bool)
    ensures
        was_held == held_contains(old(held)@, k),
        final(held)@ == held_remove(old(held)@, k),
{
    let ghost s = held@;
    let mut i: usize = 0;
    assert(s.skip(0) =~= s);
    while i < held.len() && !(held[i].0 == k.0 && held[i].1 == k.1)
        invariant
            held@ == s,
            i <= s.len(),
            held_remove(s, k) == s.take(i as int) + held_remove(s.skip(i as int), k),
            forall|j: int| 0 <= j < i ==> voice_key(#[trigger] s[j]) != k,
        decreases s.len() - i,
    {
        let ghost t = s.skip(i as int);
        assert(t[0] == s[i as int]);
        assert(t.skip(1) =~= s.skip(i as int + 1));
        assert(s.take(i as int + 1) + held_remove(s.skip(i as int + 1), k) =~= s.take(i as int) + (seq![t[0]] + held_remove(t.skip(1), k)));
        i += 1;
    }
    if i < held.len() {
        let ghost t = s.skip(i as int);
        assert(t[0] == s[i as int]);
        assert(t.skip(1) =~= s.skip(i as int + 1));
        held.remove(i);
        assert(held@ =~= s.take(i as int) + t.skip(1));
        assert(voice_key(s[i as int]) == k);
        true
    } else {
        assert(s.skip(i as int).len() == 0);
        assert(held@ =~= s.take(i as int) + s.skip(i as int));
        false
    }
}

/// `(velocity, pitch)` of the loudest held voice.
pub fn loudest_voice(held: &Vec<Voice>) -> (r: Option<(u8, u8)>)
    ensures
        r == loudest(held@),
{
    let mut best: Option<(u8, u8)> = None;
    let mut i: usize = 0;
    while i < held.len()
        invariant
            i <= held@.len(),
            best == loudest(held@.take(i as int)),
        decreases held@.len() - i,
    {
        assert(held@.take(i as int + 1).drop_last() =~= held@.take(i as int));
        let v = held[i];
        best = match best {
            None => Some((v.2, v.1)),
            Some(b) => if v.2 > b.0 || (v.2 == b.0 && v.1 >= b.1) { Some((v.2, v.1)) } else { Some(b) },
        };
        i += 1;
    }
    assert(held@.take(held@.len() as int) =~= held@);
    best
}

} // verus!
