//! What a limited event stream sounds.
//!
//! Replaying an event stream — a press holds its voice with its velocity, a
//! release lets it go — gives the voices sounding after it, as a map from
//! key to velocity. For the voice limiter this is exactly what it holds: a
//! run's output replayed over the voices held before the run gives the
//! voices held after it, so the limited stream never sounds more than the
//! limit.

use vstd::prelude::*;
use crate::midi::limit::{
    evictions, kept, lemma_presses_ascending, lemma_releases_ascending, lemma_run_end, lemma_run_within_limit,
    lemma_survivors, limit_from, passed_presses, presses, releases, run_end, run_step, spec_limit_voices, survivors,
};
use crate::midi::merge::{NoteEvent, VoiceSelection};
use crate::midi::voices::{held_contains, held_insert, held_remove, key_lt, keys_ascending, voice_key, Voice};

verus! {

/// A map from key `(channel, pitch)` to velocity.
pub type VoiceMap = Map<(u8, u8), u8>;

/// The held voices as a map from key to velocity.
pub open spec fn vmap(s: Seq<Voice>) -> VoiceMap
    decreases s.len(),
{
    if s.len() == 0 {
        Map::empty()
    } else {
        vmap(s.skip(1)).insert(voice_key(s[0]), s[0].2)
    }
}

/// The voices sounding after the events `out`, starting from `m`.
pub open spec fn replay(m: VoiceMap, out: Seq<NoteEvent>) -> VoiceMap
    decreases out.len(),
{
    if out.len() == 0 {
        m
    } else {
        let r = replay(m, out.drop_last());
        let e = out.last();
        if e.is_on { r.insert((e.channel, e.pitch), e.velocity) } else { r.remove((e.channel, e.pitch)) }
    }
}

/// Whether maps `a` and `b` agree at key `k`.
pub open spec fn agree_at(a: VoiceMap, b: VoiceMap, k: (u8, u8)) -> bool {
    &&& a.dom().contains(k) == b.dom().contains(k)
    &&& a.dom().contains(k) ==> a[k] == b[k]
}

proof fn lemma_agree_eq(a: VoiceMap, b: VoiceMap)
    requires
        forall|k: (u8, u8)| #[trigger] agree_at(a, b, k),
    ensures
        a == b,
{
    assert forall|k: (u8, u8)| a.dom().contains(k) <==> b.dom().contains(k) by {
        assert(agree_at(a, b, k));
    }
    assert forall|k: (u8, u8)| a.dom().contains(k) implies a[k] == b[k] by {
        assert(agree_at(a, b, k));
    }
    assert(a =~= b);
}

proof fn lemma_replay_concat(m: VoiceMap, a: Seq<NoteEvent>, b: Seq<NoteEvent>)
    ensures
        replay(m, a + b) == replay(replay(m, a), b),
    decreases b.len(),
{
    if b.len() == 0 {
        assert(a + b =~= a);
    } else {
        lemma_replay_concat(m, a, b.drop_last());
        assert((a + b).drop_last() =~= a + b.drop_last());
        assert((a + b).last() == b.last());
    }
}

proof fn lemma_vmap_dom(s: Seq<Voice>, k: (u8, u8))
    ensures
        vmap(s).dom().contains(k) <==> held_contains(s, k),
    decreases s.len(),
{
    if s.len() > 0 {
        let t = s.skip(1);
        lemma_vmap_dom(t, k);
        if held_contains(t, k) {
            let j = choose|j: int| 0 <= j < t.len() && voice_key(#[trigger] t[j]) == k;
            assert(s[j + 1] == t[j]);
        }
        if held_contains(s, k) && voice_key(s[0]) != k {
            let j = choose|j: int| 0 <= j < s.len() && voice_key(#[trigger] s[j]) == k;
            assert(t[j - 1] == s[j]);
        }
    }
}

proof fn lemma_skip_ascending(s: Seq<Voice>)
    requires
        keys_ascending(s),
        s.len() > 0,
    ensures
        keys_ascending(s.skip(1)),
        !held_contains(s.skip(1), voice_key(s[0])),
{
    let t = s.skip(1);
    assert forall|i: int, j: int| 0 <= i < j < t.len() implies key_lt(voice_key(#[trigger] t[i]), voice_key(#[trigger] t[j])) by {
        assert(t[i] == s[i + 1] && t[j] == s[j + 1]);
    }
    if held_contains(t, voice_key(s[0])) {
        let j = choose|j: int| 0 <= j < t.len() && voice_key(#[trigger] t[j]) == voice_key(s[0]);
        assert(t[j] == s[j + 1]);
        assert(key_lt(voice_key(s[0]), voice_key(s[j + 1])));
    }
}

/// The value of a held voice's key in the map is its velocity.
proof fn lemma_vmap_value(s: Seq<Voice>, i: int)
    requires
        keys_ascending(s),
        0 <= i < s.len(),
    ensures
        vmap(s).dom().contains(voice_key(s[i])),
        vmap(s)[voice_key(s[i])] == s[i].2,
    decreases s.len(),
{
    let t = s.skip(1);
    lemma_skip_ascending(s);
    if i > 0 {
        lemma_vmap_value(t, i - 1);
        assert(t[i - 1] == s[i]);
        assert(key_lt(voice_key(s[0]), voice_key(s[i])));
    }
}

proof fn lemma_vmap_len(s: Seq<Voice>)
    requires
        keys_ascending(s),
    ensures
        vmap(s).dom().finite(),
        vmap(s).dom().len() == s.len(),
    decreases s.len(),
{
    if s.len() > 0 {
        let t = s.skip(1);
        lemma_skip_ascending(s);
        lemma_vmap_len(t);
        lemma_vmap_dom(t, voice_key(s[0]));
    }
}

proof fn lemma_vmap_insert(s: Seq<Voice>, v: Voice)
    ensures
        vmap(held_insert(s, v)) == vmap(s).insert(voice_key(v), v.2),
    decreases s.len(),
{
    if s.len() == 0 {
        let one = seq![v];
        assert(one.skip(1) =~= Seq::<Voice>::empty());
        assert(vmap(one.skip(1)) == Map::<(u8, u8), u8>::empty());
        assert(vmap(one) == vmap(one.skip(1)).insert(voice_key(one[0]), one[0].2));
    } else {
        let t = s.skip(1);
        if voice_key(s[0]) == voice_key(v) {
            let r = seq![v] + t;
            assert(r.skip(1) =~= t);
            assert(vmap(r) =~= vmap(s).insert(voice_key(v), v.2));
        } else if key_lt(voice_key(v), voice_key(s[0])) {
            let r = seq![v] + s;
            assert(r.skip(1) =~= s);
        } else {
            lemma_vmap_insert(t, v);
            let r = seq![s[0]] + held_insert(t, v);
            assert(r.skip(1) =~= held_insert(t, v));
            assert(vmap(r) =~= vmap(s).insert(voice_key(v), v.2));
        }
    }
}

proof fn lemma_vmap_remove(s: Seq<Voice>, k: (u8, u8))
    requires
        keys_ascending(s),
    ensures
        vmap(held_remove(s, k)) == vmap(s).remove(k),
    decreases s.len(),
{
    if s.len() == 0 {
        assert(vmap(s).remove(k) =~= vmap(s));
    } else {
        let t = s.skip(1);
        lemma_skip_ascending(s);
        if voice_key(s[0]) == k {
            lemma_vmap_dom(t, k);
            assert(vmap(t) =~= vmap(s).remove(k));
        } else {
            lemma_vmap_remove(t, k);
            let r = seq![s[0]] + held_remove(t, k);
            assert(r.skip(1) =~= held_remove(t, k));
            assert(vmap(r) =~= vmap(s).remove(k));
        }
    }
}

/// The presses of events `lo..hi` whose key satisfies `keep`, applied to
/// `m` in order.
pub open spec fn press_fold(m: VoiceMap, es: Seq<NoteEvent>, lo: int, hi: int, keep: spec_fn((u8, u8)) -> bool) -> VoiceMap
    decreases hi - lo,
{
    if hi <= lo {
        m
    } else {
        let r = press_fold(m, es, lo, hi - 1, keep);
        let e = es[hi - 1];
        if e.is_on && keep((e.channel, e.pitch)) { r.insert((e.channel, e.pitch), e.velocity) } else { r }
    }
}

proof fn lemma_presses_fold(pre: Seq<Voice>, es: Seq<NoteEvent>, lo: int, hi: int, all: spec_fn((u8, u8)) -> bool)
    requires
        forall|k: (u8, u8)| #[trigger] all(k),
    ensures
        vmap(presses(pre, es, lo, hi)) == press_fold(vmap(pre), es, lo, hi, all),
    decreases hi - lo,
{
    if hi > lo {
        lemma_presses_fold(pre, es, lo, hi - 1, all);
        assert(all((es[hi - 1].channel, es[hi - 1].pitch)));
        let e = es[hi - 1];
        lemma_vmap_insert(presses(pre, es, lo, hi - 1), (e.channel, e.pitch, e.velocity));
    }
}

/// Two folds agree at `k` when their bases do and the same presses of `k` pass.
proof fn lemma_press_fold_agree(
    a: VoiceMap,
    b: VoiceMap,
    es: Seq<NoteEvent>,
    lo: int,
    hi: int,
    ka: spec_fn((u8, u8)) -> bool,
    kb: spec_fn((u8, u8)) -> bool,
    k: (u8, u8),
)
    requires
        agree_at(a, b, k),
        ka(k) == kb(k),
    ensures
        agree_at(press_fold(a, es, lo, hi, ka), press_fold(b, es, lo, hi, kb), k),
    decreases hi - lo,
{
    if hi > lo {
        lemma_press_fold_agree(a, b, es, lo, hi - 1, ka, kb, k);
    }
}

/// A fold that lets no press of `k` pass leaves `k` as it was.
proof fn lemma_press_fold_untouched(m: VoiceMap, es: Seq<NoteEvent>, lo: int, hi: int, keep: spec_fn((u8, u8)) -> bool, k: (u8, u8))
    requires
        !keep(k),
    ensures
        agree_at(press_fold(m, es, lo, hi, keep), m, k),
    decreases hi - lo,
{
    if hi > lo {
        lemma_press_fold_untouched(m, es, lo, hi - 1, keep, k);
    }
}

/// Presses only add keys.
proof fn lemma_press_fold_grows(m: VoiceMap, es: Seq<NoteEvent>, lo: int, hi: int, keep: spec_fn((u8, u8)) -> bool, k: (u8, u8))
    requires
        m.dom().contains(k),
    ensures
        press_fold(m, es, lo, hi, keep).dom().contains(k),
    decreases hi - lo,
{
    if hi > lo {
        lemma_press_fold_grows(m, es, lo, hi - 1, keep, k);
    }
}

proof fn lemma_passed_presses_replay(
    out: Seq<NoteEvent>,
    es: Seq<NoteEvent>,
    lo: int,
    hi: int,
    held: Seq<Voice>,
    max: usize,
    sel: VoiceSelection,
    limited: bool,
    m: VoiceMap,
    keep: spec_fn((u8, u8)) -> bool,
)
    requires
        forall|k: (u8, u8)| #[trigger] keep(k) == (!limited || kept(held, k, max, sel)),
    ensures
        passed_presses(out, es, lo, hi, held, max, sel, limited).len() >= out.len(),
        passed_presses(out, es, lo, hi, held, max, sel, limited).take(out.len() as int) == out,
        replay(m, passed_presses(out, es, lo, hi, held, max, sel, limited).skip(out.len() as int))
            == press_fold(m, es, lo, hi, keep),
    decreases hi - lo,
{
    if hi <= lo {
        assert(out.skip(out.len() as int) =~= Seq::<NoteEvent>::empty());
        assert(out.take(out.len() as int) =~= out);
    } else {
        lemma_passed_presses_replay(out, es, lo, hi - 1, held, max, sel, limited, m, keep);
        let o = passed_presses(out, es, lo, hi - 1, held, max, sel, limited);
        let e = es[hi - 1];
        assert(keep((e.channel, e.pitch)) == (!limited || kept(held, (e.channel, e.pitch), max, sel)));
        if e.is_on && keep((e.channel, e.pitch)) {
            let o2 = o.push(e);
            assert(o2.take(out.len() as int) =~= o.take(out.len() as int));
            assert(o2.skip(out.len() as int).drop_last() =~= o.skip(out.len() as int));
            assert(o2.skip(out.len() as int).last() == e);
        }
    }
}

proof fn lemma_releases_replay(held: Seq<Voice>, out: Seq<NoteEvent>, es: Seq<NoteEvent>, lo: int, hi: int)
    requires
        keys_ascending(held),
    ensures
        releases(held, out, es, lo, hi).1.len() >= out.len(),
        releases(held, out, es, lo, hi).1.take(out.len() as int) == out,
        replay(vmap(held), releases(held, out, es, lo, hi).1.skip(out.len() as int)) == vmap(releases(held, out, es, lo, hi).0),
    decreases hi - lo,
{
    if hi <= lo {
        assert(out.skip(out.len() as int) =~= Seq::<NoteEvent>::empty());
        assert(out.take(out.len() as int) =~= out);
    } else {
        lemma_releases_replay(held, out, es, lo, hi - 1);
        lemma_releases_ascending(held, out, es, lo, hi - 1);
        let r = releases(held, out, es, lo, hi - 1);
        let e = es[hi - 1];
        if !e.is_on && held_contains(r.0, (e.channel, e.pitch)) {
            let o2 = r.1.push(e);
            assert(o2.take(out.len() as int) =~= r.1.take(out.len() as int));
            assert(o2.skip(out.len() as int).drop_last() =~= r.1.skip(out.len() as int));
            assert(o2.skip(out.len() as int).last() == e);
            lemma_vmap_remove(r.0, (e.channel, e.pitch));
        }
    }
}

/// Whether eviction lets the voice of key `k` go with a release: it is among
/// the first `n` voices of `held`, not kept, and was held before the run.
pub open spec fn evicted(held: Seq<Voice>, pre: Seq<Voice>, max: usize, sel: VoiceSelection, n: int, k: (u8, u8)) -> bool {
    &&& exists|j: int| 0 <= j < n && voice_key(#[trigger] held[j]) == k
    &&& !kept(held, k, max, sel)
    &&& held_contains(pre, k)
}

proof fn lemma_evictions_replay(
    out: Seq<NoteEvent>,
    held: Seq<Voice>,
    pre: Seq<Voice>,
    max: usize,
    sel: VoiceSelection,
    tick: u64,
    n: nat,
    m: VoiceMap,
    k: (u8, u8),
)
    requires
        n <= held.len(),
    ensures
        evictions(out, held, pre, max, sel, tick, n).len() >= out.len(),
        evictions(out, held, pre, max, sel, tick, n).take(out.len() as int) == out,
        replay(m, evictions(out, held, pre, max, sel, tick, n).skip(out.len() as int)).dom().contains(k)
            == (m.dom().contains(k) && !evicted(held, pre, max, sel, n as int, k)),
        replay(m, evictions(out, held, pre, max, sel, tick, n).skip(out.len() as int)).dom().contains(k)
            ==> replay(m, evictions(out, held, pre, max, sel, tick, n).skip(out.len() as int))[k] == m[k],
    decreases n,
{
    if n == 0 {
        assert(out.skip(out.len() as int) =~= Seq::<NoteEvent>::empty());
        assert(out.take(out.len() as int) =~= out);
    } else {
        let p = (n - 1) as nat;
        lemma_evictions_replay(out, held, pre, max, sel, tick, p, m, k);
        let o = evictions(out, held, pre, max, sel, tick, p);
        let v = held[p as int];
        let was = evicted(held, pre, max, sel, p as int, k);
        let now = evicted(held, pre, max, sel, n as int, k);
        if was {
            let j = choose|j: int| 0 <= j < p && voice_key(#[trigger] held[j]) == k;
            assert(now);
        }
        if now && voice_key(v) != k {
            let j = choose|j: int| 0 <= j < n && voice_key(#[trigger] held[j]) == k;
            assert(j != p);
            assert(was);
        }
        if !kept(held, voice_key(v), max, sel) && held_contains(pre, voice_key(v)) {
            let ev = NoteEvent { abs_tick: tick, is_on: false, pitch: v.1, channel: v.0, velocity: 0 };
            let o2 = o.push(ev);
            assert(o2.take(out.len() as int) =~= o.take(out.len() as int));
            assert(o2.skip(out.len() as int).drop_last() =~= o.skip(out.len() as int));
            assert(o2.skip(out.len() as int).last() == ev);
            assert((ev.channel, ev.pitch) == voice_key(v));
            if voice_key(v) == k {
                assert(now);
            }
        } else if voice_key(v) == k {
            assert(!now || was);
        }
    }
}

proof fn lemma_survivors_map(h: Seq<Voice>, max: usize, sel: VoiceSelection, k: (u8, u8))
    requires
        keys_ascending(h),
    ensures
        vmap(survivors(h, max, sel, h.len())).dom().contains(k) == kept(h, k, max, sel),
        kept(h, k, max, sel) ==> vmap(survivors(h, max, sel, h.len()))[k] == vmap(h)[k],
{
    let sv = survivors(h, max, sel, h.len());
    lemma_survivors(h, max, sel, h.len());
    lemma_vmap_dom(sv, k);
    lemma_survivors_members(h, max, sel, h.len());
    if kept(h, k, max, sel) {
        let i = choose|i: int| 0 <= i < h.len() && voice_key(#[trigger] h[i]) == k && crate::midi::limit::rank(h, i, sel) < max;
        let x = choose|x: int| 0 <= x < sv.len() && sv[x] == h[i];
        lemma_vmap_value(sv, x);
        lemma_vmap_value(h, i);
    } else if held_contains(sv, k) {
        let x = choose|x: int| 0 <= x < sv.len() && voice_key(#[trigger] sv[x]) == k;
        let j = choose|j: int| 0 <= j < h.len() && #[trigger] sv[x] == h[j];
        assert(kept(h, voice_key(h[j]), max, sel));
    }
}

/// The survivors among the first `n` voices are exactly the kept ones.
proof fn lemma_survivors_members(h: Seq<Voice>, max: usize, sel: VoiceSelection, n: nat)
    requires
        n <= h.len(),
    ensures
        forall|x: int| 0 <= x < survivors(h, max, sel, n).len() ==> kept(h, voice_key(#[trigger] survivors(h, max, sel, n)[x]), max, sel),
        forall|i: int| 0 <= i < n && #[trigger] kept(h, voice_key(h[i]), max, sel) ==>
            exists|x: int| 0 <= x < survivors(h, max, sel, n).len() && survivors(h, max, sel, n)[x] == h[i],
    decreases n,
{
    if n > 0 {
        let p = (n - 1) as nat;
        lemma_survivors_members(h, max, sel, p);
        let r = survivors(h, max, sel, p);
        let t = survivors(h, max, sel, n);
        if kept(h, voice_key(h[p as int]), max, sel) {
            assert forall|x: int| 0 <= x < t.len() implies kept(h, voice_key(#[trigger] t[x]), max, sel) by {
                if x < r.len() {
                    assert(t[x] == r[x]);
                }
            }
            assert forall|i: int| 0 <= i < n && #[trigger] kept(h, voice_key(h[i]), max, sel) implies
                exists|x: int| 0 <= x < t.len() && t[x] == h[i] by {
                if i == p {
                    assert(t[t.len() - 1] == h[i]);
                } else {
                    let x = choose|x: int| 0 <= x < r.len() && r[x] == h[i];
                    assert(t[x] == h[i]);
                }
            }
        }
    }
}

/// Law: replaying the output of a run over the voices held before it gives
/// exactly the voices the limiter holds after it (the output only grows),
/// and those are at most `max`: the limited stream never sounds more than
/// `max` voices at the end of any tick.
pub proof fn lemma_run_sounds_held(held: Seq<Voice>, out: Seq<NoteEvent>, es: Seq<NoteEvent>, i: int, j: int, max: usize, sel: VoiceSelection)
    requires
        keys_ascending(held),
    ensures
        run_step(held, out, es, i, j, max, sel).1.len() >= out.len(),
        run_step(held, out, es, i, j, max, sel).1.take(out.len() as int) == out,
        replay(vmap(held), run_step(held, out, es, i, j, max, sel).1.skip(out.len() as int))
            == vmap(run_step(held, out, es, i, j, max, sel).0),
        vmap(run_step(held, out, es, i, j, max, sel).0).dom().finite(),
        vmap(run_step(held, out, es, i, j, max, sel).0).dom().len() <= max,
{
    let r = releases(held, out, es, i, j);
    let pre = r.0;
    let h = presses(pre, es, i, j);
    let all = |k: (u8, u8)| true;
    lemma_releases_replay(held, out, es, i, j);
    lemma_releases_ascending(held, out, es, i, j);
    lemma_presses_ascending(pre, es, i, j);
    lemma_presses_fold(pre, es, i, j, all);
    lemma_run_within_limit(held, out, es, i, j, max, sel);
    let res = run_step(held, out, es, i, j, max, sel);
    let rel = r.1.skip(out.len() as int);
    if h.len() > max {
        let tick = es[i].abs_tick;
        let o = evictions(r.1, h, pre, max, sel, tick, h.len());
        let keep = |k: (u8, u8)| kept(h, k, max, sel);
        // The eviction output extends what came before it.
        lemma_evictions_replay(r.1, h, pre, max, sel, tick, h.len(), vmap(pre), (0u8, 0u8));
        lemma_passed_presses_replay(o, es, i, j, h, max, sel, true, replay(vmap(pre), o.skip(r.1.len() as int)), keep);
        let p = passed_presses(o, es, i, j, h, max, sel, true);
        let ev = o.skip(r.1.len() as int);
        let pp = p.skip(o.len() as int);
        assert(p.take(out.len() as int) =~= out) by {
            assert(p.take(o.len() as int) == o);
            assert(o.take(r.1.len() as int) == r.1);
            assert(r.1.take(out.len() as int) == out);
        }
        assert(p.skip(out.len() as int) =~= rel + ev + pp) by {
            assert(p.take(o.len() as int) == o);
            assert(o.take(r.1.len() as int) == r.1);
        }
        lemma_replay_concat(vmap(held), rel + ev, pp);
        lemma_replay_concat(vmap(held), rel, ev);
        let z = replay(vmap(pre), ev);
        let f = press_fold(z, es, i, j, keep);
        lemma_survivors(h, max, sel, h.len());
        let g = vmap(survivors(h, max, sel, h.len()));
        assert forall|k: (u8, u8)| #[trigger] agree_at(f, g, k) by {
            {
                lemma_evictions_replay(r.1, h, pre, max, sel, tick, h.len(), vmap(pre), k);
                lemma_survivors_map(h, max, sel, k);
                lemma_vmap_dom(pre, k);
                lemma_vmap_dom(h, k);
                if kept(h, k, max, sel) {
                    assert(!evicted(h, pre, max, sel, h.len() as int, k));
                    lemma_press_fold_agree(z, vmap(pre), es, i, j, keep, all, k);
                } else {
                    lemma_press_fold_untouched(z, es, i, j, keep, k);
                    if vmap(pre).dom().contains(k) {
                        lemma_press_fold_grows(vmap(pre), es, i, j, all, k);
                        let q = choose|q: int| 0 <= q < h.len() && voice_key(#[trigger] h[q]) == k;
                        assert(evicted(h, pre, max, sel, h.len() as int, k));
                    }
                }
            }
        }
        lemma_agree_eq(f, g);
        lemma_vmap_len(survivors(h, max, sel, h.len()));
    } else {
        let p = passed_presses(r.1, es, i, j, h, max, sel, false);
        lemma_passed_presses_replay(r.1, es, i, j, h, max, sel, false, vmap(pre), all);
        let pp = p.skip(r.1.len() as int);
        assert(p.take(out.len() as int) =~= out) by {
            assert(p.take(r.1.len() as int) == r.1);
            assert(r.1.take(out.len() as int) == out);
        }
        assert(p.skip(out.len() as int) =~= rel + pp) by {
            assert(p.take(r.1.len() as int) == r.1);
        }
        lemma_replay_concat(vmap(held), rel, pp);
        lemma_vmap_len(h);
    }
}

/// The voices the limiter holds after the runs from event `i` on.
pub open spec fn held_from(es: Seq<NoteEvent>, max: usize, sel: VoiceSelection, i: nat, held: Seq<Voice>) -> Seq<Voice>
    decreases es.len() - i,
{
    if i >= es.len() {
        held
    } else {
        let j = run_end(es, es[i as int].abs_tick, i);
        proof {
            lemma_run_end(es, es[i as int].abs_tick, i);
        }
        let r = run_step(held, Seq::empty(), es, i as int, j as int, max, sel);
        held_from(es, max, sel, j, r.0)
    }
}

proof fn lemma_run_step_held_independent(held: Seq<Voice>, out: Seq<NoteEvent>, es: Seq<NoteEvent>, i: int, j: int, max: usize, sel: VoiceSelection)
    ensures
        run_step(held, out, es, i, j, max, sel).0 == run_step(held, Seq::empty(), es, i, j, max, sel).0,
{
    lemma_releases_held_independent(held, out, es, i, j);
}

proof fn lemma_releases_held_independent(held: Seq<Voice>, out: Seq<NoteEvent>, es: Seq<NoteEvent>, lo: int, hi: int)
    ensures
        releases(held, out, es, lo, hi).0 == releases(held, Seq::empty(), es, lo, hi).0,
    decreases hi - lo,
{
    if hi > lo {
        lemma_releases_held_independent(held, out, es, lo, hi - 1);
    }
}

proof fn lemma_limit_from_sounds_held(es: Seq<NoteEvent>, max: usize, sel: VoiceSelection, i: nat, held: Seq<Voice>, out: Seq<NoteEvent>)
    requires
        keys_ascending(held),
        held.len() <= max,
    ensures
        limit_from(es, max, sel, i, held, out).len() >= out.len(),
        limit_from(es, max, sel, i, held, out).take(out.len() as int) == out,
        replay(vmap(held), limit_from(es, max, sel, i, held, out).skip(out.len() as int)) == vmap(held_from(es, max, sel, i, held)),
        keys_ascending(held_from(es, max, sel, i, held)),
        held_from(es, max, sel, i, held).len() <= max,
    decreases es.len() - i,
{
    let l = limit_from(es, max, sel, i, held, out);
    if i >= es.len() {
        assert(l.skip(out.len() as int) =~= Seq::<NoteEvent>::empty());
        assert(l.take(out.len() as int) =~= out);
    } else {
        let j = run_end(es, es[i as int].abs_tick, i);
        lemma_run_end(es, es[i as int].abs_tick, i);
        let r = run_step(held, out, es, i as int, j as int, max, sel);
        lemma_run_sounds_held(held, out, es, i as int, j as int, max, sel);
        lemma_run_within_limit(held, out, es, i as int, j as int, max, sel);
        lemma_run_step_held_independent(held, out, es, i as int, j as int, max, sel);
        lemma_limit_from_sounds_held(es, max, sel, j, r.0, r.1);
        assert(l == limit_from(es, max, sel, j, r.0, r.1));
        assert(l.take(out.len() as int) =~= out) by {
            assert(l.take(r.1.len() as int) == r.1);
            assert(r.1.take(out.len() as int) == out);
        }
        assert(l.skip(out.len() as int) =~= r.1.skip(out.len() as int) + l.skip(r.1.len() as int)) by {
            assert(l.take(r.1.len() as int) == r.1);
        }
        lemma_replay_concat(vmap(held), r.1.skip(out.len() as int), l.skip(r.1.len() as int));
    }
}

/// Law: replaying the whole limited stream from silence gives the voices
/// the limiter holds at its end, and at every run boundary the stream has
/// never more than `max` voices sounding (each run as
/// [`lemma_run_sounds_held`] states); at the end at most `max` sound.
pub proof fn lemma_limit_sounds_held(es: Seq<NoteEvent>, max: usize, sel: VoiceSelection)
    ensures
        replay(Map::empty(), spec_limit_voices(es, max, sel)) == vmap(held_from(es, max, sel, 0, Seq::empty())),
        vmap(held_from(es, max, sel, 0, Seq::empty())).dom().finite(),
        vmap(held_from(es, max, sel, 0, Seq::empty())).dom().len() <= max,
{
    let empty = Seq::<Voice>::empty();
    assert(vmap(empty) == Map::<(u8, u8), u8>::empty());
    lemma_limit_from_sounds_held(es, max, sel, 0, empty, Seq::empty());
    let l = spec_limit_voices(es, max, sel);
    assert(l.skip(0) =~= l);
    lemma_vmap_len(held_from(es, max, sel, 0, empty));
}

/// Whether events `lo..hi` of `a` and `b` are the same.
pub open spec fn same_events(a: Seq<NoteEvent>, b: Seq<NoteEvent>, lo: int, hi: int) -> bool {
    forall|k: int| lo <= k < hi ==> #[trigger] a[k] == b[k]
}

proof fn lemma_releases_same(held: Seq<Voice>, out: Seq<NoteEvent>, a: Seq<NoteEvent>, b: Seq<NoteEvent>, lo: int, hi: int)
    requires
        same_events(a, b, lo, hi),
    ensures
        releases(held, out, a, lo, hi) == releases(held, out, b, lo, hi),
    decreases hi - lo,
{
    if hi > lo {
        lemma_releases_same(held, out, a, b, lo, hi - 1);
        assert(a[hi - 1] == b[hi - 1]);
    }
}

proof fn lemma_presses_same(held: Seq<Voice>, a: Seq<NoteEvent>, b: Seq<NoteEvent>, lo: int, hi: int)
    requires
        same_events(a, b, lo, hi),
    ensures
        presses(held, a, lo, hi) == presses(held, b, lo, hi),
    decreases hi - lo,
{
    if hi > lo {
        lemma_presses_same(held, a, b, lo, hi - 1);
        assert(a[hi - 1] == b[hi - 1]);
    }
}

proof fn lemma_passed_same(out: Seq<NoteEvent>, a: Seq<NoteEvent>, b: Seq<NoteEvent>, lo: int, hi: int, held: Seq<Voice>, max: usize, sel: VoiceSelection, limited: bool)
    requires
        same_events(a, b, lo, hi),
    ensures
        passed_presses(out, a, lo, hi, held, max, sel, limited) == passed_presses(out, b, lo, hi, held, max, sel, limited),
    decreases hi - lo,
{
    if hi > lo {
        lemma_passed_same(out, a, b, lo, hi - 1, held, max, sel, limited);
        assert(a[hi - 1] == b[hi - 1]);
    }
}

proof fn lemma_run_step_same(held: Seq<Voice>, out: Seq<NoteEvent>, a: Seq<NoteEvent>, b: Seq<NoteEvent>, i: int, j: int, max: usize, sel: VoiceSelection)
    requires
        i < j,
        same_events(a, b, i, j),
    ensures
        run_step(held, out, a, i, j, max, sel) == run_step(held, out, b, i, j, max, sel),
{
    lemma_releases_same(held, out, a, b, i, j);
    let pre = releases(held, out, a, i, j).0;
    lemma_presses_same(pre, a, b, i, j);
    let h = presses(pre, a, i, j);
    assert(a[i] == b[i]);
    let r1 = releases(held, out, a, i, j).1;
    let o = evictions(r1, h, pre, max, sel, a[i].abs_tick, h.len());
    lemma_passed_same(o, a, b, i, j, h, max, sel, true);
    lemma_passed_same(r1, a, b, i, j, h, max, sel, false);
}

/// Whether a tick ends just before event `b`.
pub open spec fn tick_boundary(es: Seq<NoteEvent>, b: nat) -> bool {
    b == 0 || b == es.len() || (b < es.len() && es[b - 1].abs_tick != es[b as int].abs_tick)
}

proof fn lemma_run_end_prefix(es: Seq<NoteEvent>, b: nat, tick: u64, k: nat)
    requires
        k <= b <= es.len(),
        tick_boundary(es, b),
        k < b || (k > 0 && es[k - 1].abs_tick == tick),
    ensures
        run_end(es, tick, k) == run_end(es.take(b as int), tick, k),
        run_end(es, tick, k) <= b,
    decreases es.len() - k,
{
    let t = es.take(b as int);
    if k < b {
        assert(t[k as int] == es[k as int]);
        if es[k as int].abs_tick == tick {
            lemma_run_end_prefix(es, b, tick, k + 1);
        }
    } else {
        assert(run_end(t, tick, k) == k);
        if k < es.len() {
            assert(es[k as int].abs_tick != tick);
        }
        assert(run_end(es, tick, k) == k);
    }
}

proof fn lemma_limit_from_prefix(es: Seq<NoteEvent>, b: nat, max: usize, sel: VoiceSelection, i: nat, held: Seq<Voice>, out: Seq<NoteEvent>)
    requires
        i <= b <= es.len(),
        tick_boundary(es, b),
        i == 0 || i == b || es[i - 1].abs_tick != es[i as int].abs_tick,
    ensures
        limit_from(es, max, sel, i, held, out)
            == limit_from(es, max, sel, b, held_from(es.take(b as int), max, sel, i, held), limit_from(es.take(b as int), max, sel, i, held, out)),
    decreases b - i,
{
    let t = es.take(b as int);
    if i < b {
        let tick = es[i as int].abs_tick;
        assert(t[i as int] == es[i as int]);
        lemma_run_end_prefix(es, b, tick, i);
        let j = run_end(es, tick, i);
        lemma_run_end(es, tick, i);
        assert(same_events(es, t, i as int, j as int)) by {
            assert forall|k: int| i <= k < j implies #[trigger] es[k] == t[k] by {}
        }
        lemma_run_step_same(held, out, es, t, i as int, j as int, max, sel);
        lemma_run_step_same(held, Seq::empty(), es, t, i as int, j as int, max, sel);
        let r = run_step(held, out, es, i as int, j as int, max, sel);
        let r0 = run_step(held, Seq::empty(), es, i as int, j as int, max, sel);
        if j < b {
            assert(es[j as int].abs_tick != tick);
            lemma_run_end_ticks_last(es, tick, i);
        }
        lemma_limit_from_prefix(es, b, max, sel, j, r.0, r.1);
        lemma_run_step_held_independent(held, out, es, i as int, j as int, max, sel);
    } else {
        assert(t.len() == b);
    }
}

proof fn lemma_run_end_ticks_last(es: Seq<NoteEvent>, tick: u64, j: nat)
    requires
        j < es.len(),
        es[j as int].abs_tick == tick,
    ensures
        run_end(es, tick, j) > j,
        es[run_end(es, tick, j) - 1].abs_tick == tick,
    decreases es.len() - j,
{
    assert(run_end(es, tick, j) == run_end(es, tick, j + 1));
    if j + 1 < es.len() && es[j + 1 as int].abs_tick == tick {
        lemma_run_end_ticks_last(es, tick, j + 1);
    } else {
        assert(run_end(es, tick, j + 1) == j + 1);
    }
}

/// Law: up to the end of any tick, the limited stream is the limited stream
/// of the events up to that tick, and it then sounds at most `max` voices.
pub proof fn lemma_limit_bounded_at_ticks(es: Seq<NoteEvent>, max: usize, sel: VoiceSelection, b: nat)
    requires
        b <= es.len(),
        tick_boundary(es, b),
    ensures
        spec_limit_voices(es, max, sel).len() >= spec_limit_voices(es.take(b as int), max, sel).len(),
        spec_limit_voices(es, max, sel).take(spec_limit_voices(es.take(b as int), max, sel).len() as int) == spec_limit_voices(es.take(b as int), max, sel),
        replay(Map::empty(), spec_limit_voices(es.take(b as int), max, sel)).dom().finite(),
        replay(Map::empty(), spec_limit_voices(es.take(b as int), max, sel)).dom().len() <= max,
{
    let t = es.take(b as int);
    let empty = Seq::<Voice>::empty();
    lemma_limit_from_prefix(es, b, max, sel, 0, empty, Seq::empty());
    lemma_limit_sounds_held(t, max, sel);
    let held = held_from(t, max, sel, 0, empty);
    assert(vmap(empty) == Map::<(u8, u8), u8>::empty());
    lemma_limit_from_sounds_held(t, max, sel, 0, empty, Seq::empty());
    lemma_limit_from_sounds_held(es, max, sel, b, held, spec_limit_voices(t, max, sel));
}

} // verus!
