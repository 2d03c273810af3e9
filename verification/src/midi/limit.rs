//! Polyphony reduction: at most a given number of voices at once.
//!
//! The events are taken in runs of equal tick. Within a run, releases of held
//! voices pass first; then the presses are held. If more voices are held than
//! allowed, the least important ones are let go: a voice held from before the
//! run gets a release at the run's tick, a voice pressed in the run is
//! suppressed. Importance follows the voice selection; voices of equal
//! importance rank in ascending key order.

use vstd::prelude::*;
use crate::midi::merge::{NoteEvent, VoiceSelection};
use crate::midi::voices::{
    held_contains, held_insert, held_remove, hold, key_lt, keys_ascending, lemma_insert_ascending,
    lemma_remove_absent, lemma_remove_ascending, release, voice_key, Voice,
};
use vstd::set_lib::{lemma_int_range, lemma_len_subset, lemma_map_size, set_int_range};

verus! {

/// Whether voice `a` ranks before voice `b`: higher pitch (highest and
/// nearest pitch), lower pitch (lowest pitch), or louder then higher pitch
/// (highest velocity); ties by ascending key.
pub open spec fn ranks_before(a: Voice, b: Voice, sel: VoiceSelection) -> bool {
    let tie = key_lt(voice_key(a), voice_key(b));
    match sel {
        VoiceSelection::HighestPitch => a.1 > b.1 || (a.1 == b.1 && tie),
        VoiceSelection::NearestPitch => a.1 > b.1 || (a.1 == b.1 && tie),
        VoiceSelection::LowestPitch => a.1 < b.1 || (a.1 == b.1 && tie),
        VoiceSelection::HighestVelocity => a.2 > b.2 || (a.2 == b.2 && a.1 > b.1) || (a.2 == b.2 && a.1 == b.1 && tie),
    }
}

/// How many of the first `n` voices of `s` rank before `v`.
pub open spec fn count_before(s: Seq<Voice>, v: Voice, sel: VoiceSelection, n: nat) -> nat
    decreases n,
{
    if n == 0 {
        0
    } else {
        count_before(s, v, sel, (n - 1) as nat) + if ranks_before(s[n - 1], v, sel) { 1nat } else { 0nat }
    }
}

/// The rank of voice `i` of `s`: how many voices of `s` rank before it.
pub open spec fn rank(s: Seq<Voice>, i: int, sel: VoiceSelection) -> nat {
    count_before(s, s[i], sel, s.len())
}

/// Whether the voice of key `k` is among the `max` most important of `s`.
pub open spec fn kept(s: Seq<Voice>, k: (u8, u8), max: usize, sel: VoiceSelection) -> bool {
    exists|i: int| 0 <= i < s.len() && voice_key(#[trigger] s[i]) == k && rank(s, i, sel) < max
}

fn ranks_before_exec(a: Voice, b: Voice, sel: VoiceSelection) -> (r: bool)
    ensures
        r == ranks_before(a, b, sel),
{
    let tie = a.0 < b.0 || (a.0 == b.0 && a.1 < b.1);
    match sel {
        VoiceSelection::HighestPitch => a.1 > b.1 || (a.1 == b.1 && tie),
        VoiceSelection::NearestPitch => a.1 > b.1 || (a.1 == b.1 && tie),
        VoiceSelection::LowestPitch => a.1 < b.1 || (a.1 == b.1 && tie),
        VoiceSelection::HighestVelocity => a.2 > b.2 || (a.2 == b.2 && a.1 > b.1) || (a.2 == b.2 && a.1 == b.1 && tie),
    }
}

proof fn lemma_count_before_bound(s: Seq<Voice>, v: Voice, sel: VoiceSelection, n: nat)
    ensures
        count_before(s, v, sel, n) <= n,
    decreases n,
{
    if n > 0 {
        lemma_count_before_bound(s, v, sel, (n - 1) as nat);
    }
}

/// Keys of the voices among the first `n` of `s` that are among the `max` most important.
pub open spec fn kept_keys(s: Seq<Voice>, max: usize, sel: VoiceSelection, n: nat) -> Seq<(u8, u8)>
    decreases n,
{
    if n == 0 {
        Seq::empty()
    } else {
        let r = kept_keys(s, max, sel, (n - 1) as nat);
        if rank(s, n - 1, sel) < max { r.push(voice_key(s[n - 1])) } else { r }
    }
}

proof fn lemma_kept_keys(s: Seq<Voice>, max: usize, sel: VoiceSelection, n: nat, k: (u8, u8))
    requires
        n <= s.len(),
    ensures
        kept_keys(s, max, sel, n).contains(k) <==>
            (exists|j: int| 0 <= j < n && voice_key(#[trigger] s[j]) == k && rank(s, j, sel) < max),
    decreases n,
{
    if n > 0 {
        lemma_kept_keys(s, max, sel, (n - 1) as nat, k);
        let r = kept_keys(s, max, sel, (n - 1) as nat);
        let last = n - 1;
        if kept_keys(s, max, sel, n).contains(k) {
            let m = choose|m: int| 0 <= m < kept_keys(s, max, sel, n).len() && kept_keys(s, max, sel, n)[m] == k;
            if m < r.len() {
                assert(r[m] == k);
                assert(r.contains(k));
            } else {
                assert(voice_key(s[last]) == k && rank(s, last, sel) < max);
            }
        }
        if exists|j: int| 0 <= j < n && voice_key(#[trigger] s[j]) == k && rank(s, j, sel) < max {
            let j = choose|j: int| 0 <= j < n && voice_key(#[trigger] s[j]) == k && rank(s, j, sel) < max;
            if j == last {
                let t = kept_keys(s, max, sel, n);
                assert(t[t.len() - 1] == k);
            } else {
                assert(r.contains(k));
                let m = choose|m: int| 0 <= m < r.len() && r[m] == k;
                assert(kept_keys(s, max, sel, n)[m] == k);
            }
        }
    }
}

/// The keys of the `max` most important held voices, in key order.
pub fn rank_and_keep(active: &Vec<Voice>, max: usize, selection: VoiceSelection) -> (keep: Vec<(u8, u8)>)
    ensures
        keep@ == kept_keys(active@, max, selection, active@.len()),
        forall|k: (u8, u8)| keep@.contains(k) <==> kept(active@, k, max, selection),
{
    let ghost s = active@;
    let mut keep: Vec<(u8, u8)> = Vec::new();
    let mut i: usize = 0;
    while i < active.len()
        invariant
            s == active@,
            i <= s.len(),
            keep@ == kept_keys(s, max, selection, i as nat),
        decreases s.len() - i,
    {
        let v = active[i];
        let mut count: usize = 0;
        let mut j: usize = 0;
        while j < active.len()
            invariant
                s == active@,
                i < s.len(),
                v == s[i as int],
                j <= s.len(),
                count == count_before(s, v, selection, j as nat),
            decreases s.len() - j,
        {
            proof {
                lemma_count_before_bound(s, v, selection, j as nat);
            }
            if ranks_before_exec(active[j], v, selection) {
                count += 1;
            }
            j += 1;
        }
        assert(count == rank(s, i as int, selection));
        if count < max {
            keep.push((v.0, v.1));
        }
        i += 1;
    }
    proof {
        assert forall|k: (u8, u8)| keep@.contains(k) <==> kept(s, k, max, selection) by {
            lemma_kept_keys(s, max, selection, s.len(), k);
        }
    }
    keep
}

fn copy_voices(v: &Vec<Voice>) -> (c: Vec<Voice>)
    ensures
        c@ == v@,
{
    let mut c: Vec<Voice> = Vec::new();
    let mut i: usize = 0;
    while i < v.len()
        invariant
            i <= v@.len(),
            c@ == v@.take(i as int),
        decreases v@.len() - i,
    {
        c.push(v[i]);
        i += 1;
        assert(c@ =~= v@.take(i as int));
    }
    assert(v@.take(v@.len() as int) =~= v@);
    c
}

fn contains_key(keys: &Vec<(u8, u8)>, k: (u8, u8)) -> (r: bool)
    ensures
        r == keys@.contains(k),
{
    let mut i: usize = 0;
    while i < keys.len()
        invariant
            i <= keys@.len(),
            forall|j: int| 0 <= j < i ==> keys@[j] != k,
        decreases keys@.len() - i,
    {
        if keys[i].0 == k.0 && keys[i].1 == k.1 {
            assert(keys@[i as int] == k);
            return true;
        }
        i += 1;
    }
    false
}

/// End of the run of events of tick `tick` starting at `j`.
pub open spec fn run_end(es: Seq<NoteEvent>, tick: u64, j: nat) -> nat
    decreases es.len() - j,
{
    if j >= es.len() || es[j as int].abs_tick != tick {
        j
    } else {
        run_end(es, tick, j + 1)
    }
}

/// Releases of events `lo..hi`: each release of a held voice lets it go and
/// passes to the output; other releases are dropped.
pub open spec fn releases(held: Seq<Voice>, out: Seq<NoteEvent>, es: Seq<NoteEvent>, lo: int, hi: int) -> (Seq<Voice>, Seq<NoteEvent>)
    decreases hi - lo,
{
    if hi <= lo {
        (held, out)
    } else {
        let r = releases(held, out, es, lo, hi - 1);
        let e = es[hi - 1];
        if !e.is_on && held_contains(r.0, (e.channel, e.pitch)) {
            (held_remove(r.0, (e.channel, e.pitch)), r.1.push(e))
        } else {
            r
        }
    }
}

/// Presses of events `lo..hi`, held in order.
pub open spec fn presses(held: Seq<Voice>, es: Seq<NoteEvent>, lo: int, hi: int) -> Seq<Voice>
    decreases hi - lo,
{
    if hi <= lo {
        held
    } else {
        let h = presses(held, es, lo, hi - 1);
        let e = es[hi - 1];
        if e.is_on { held_insert(h, (e.channel, e.pitch, e.velocity)) } else { h }
    }
}

/// The presses of events `lo..hi` that pass: all of them, or (when
/// `limited`) those whose voice is kept among `held`.
pub open spec fn passed_presses(out: Seq<NoteEvent>, es: Seq<NoteEvent>, lo: int, hi: int, held: Seq<Voice>, max: usize, sel: VoiceSelection, limited: bool) -> Seq<NoteEvent>
    decreases hi - lo,
{
    if hi <= lo {
        out
    } else {
        let o = passed_presses(out, es, lo, hi - 1, held, max, sel, limited);
        let e = es[hi - 1];
        if e.is_on && (!limited || kept(held, (e.channel, e.pitch), max, sel)) { o.push(e) } else { o }
    }
}

/// Releases, at `tick`, of the first `n` voices of `held` that are let go
/// and were held before the run (`pre`).
pub open spec fn evictions(out: Seq<NoteEvent>, held: Seq<Voice>, pre: Seq<Voice>, max: usize, sel: VoiceSelection, tick: u64, n: nat) -> Seq<NoteEvent>
    decreases n,
{
    if n == 0 {
        out
    } else {
        let o = evictions(out, held, pre, max, sel, tick, (n - 1) as nat);
        let v = held[n - 1];
        if !kept(held, voice_key(v), max, sel) && held_contains(pre, voice_key(v)) {
            o.push(NoteEvent { abs_tick: tick, is_on: false, pitch: v.1, channel: v.0, velocity: 0 })
        } else {
            o
        }
    }
}

/// The first `n` voices of `held` that are kept.
pub open spec fn survivors(held: Seq<Voice>, max: usize, sel: VoiceSelection, n: nat) -> Seq<Voice>
    decreases n,
{
    if n == 0 {
        Seq::empty()
    } else {
        let r = survivors(held, max, sel, (n - 1) as nat);
        if kept(held, voice_key(held[n - 1]), max, sel) { r.push(held[n - 1]) } else { r }
    }
}

/// One run of equal tick starting at `i`, ending at `j`: held voices and output after it.
pub open spec fn run_step(held: Seq<Voice>, out: Seq<NoteEvent>, es: Seq<NoteEvent>, i: int, j: int, max: usize, sel: VoiceSelection) -> (Seq<Voice>, Seq<NoteEvent>) {
    let r = releases(held, out, es, i, j);
    let pre = r.0;
    let h = presses(pre, es, i, j);
    if h.len() > max {
        let o = evictions(r.1, h, pre, max, sel, es[i].abs_tick, h.len());
        (survivors(h, max, sel, h.len()), passed_presses(o, es, i, j, h, max, sel, true))
    } else {
        (h, passed_presses(r.1, es, i, j, h, max, sel, false))
    }
}

/// A run ends no earlier than it starts, within the events, past its first
/// event when that event has the run's tick, and before an event of another tick.
pub proof fn lemma_run_end(es: Seq<NoteEvent>, tick: u64, j: nat)
    ensures
        j <= run_end(es, tick, j),
        run_end(es, tick, j) <= if j <= es.len() { es.len() } else { j },
        j < es.len() && es[j as int].abs_tick == tick ==> j < run_end(es, tick, j),
        run_end(es, tick, j) < es.len() ==> es[run_end(es, tick, j) as int].abs_tick != tick,
    decreases es.len() - j,
{
    if j < es.len() && es[j as int].abs_tick == tick {
        lemma_run_end(es, tick, j + 1);
    }
}

proof fn lemma_ranks_before_order(a: Voice, b: Voice, c: Voice, sel: VoiceSelection)
    ensures
        !ranks_before(a, a, sel),
        ranks_before(a, b, sel) && ranks_before(b, c, sel) ==> ranks_before(a, c, sel),
        voice_key(a) != voice_key(b) ==> ranks_before(a, b, sel) || ranks_before(b, a, sel),
{
}

proof fn lemma_count_before_monotone(s: Seq<Voice>, a: Voice, b: Voice, sel: VoiceSelection, n: nat, i: int)
    requires
        ranks_before(a, b, sel),
        n <= s.len(),
        0 <= i < n,
        s[i] == a,
    ensures
        count_before(s, b, sel, n) >= count_before(s, a, sel, n) + 1,
    decreases n,
{
    lemma_ranks_before_order(a, a, a, sel);
    if i < n - 1 {
        lemma_count_before_monotone(s, a, b, sel, (n - 1) as nat, i);
        lemma_ranks_before_order(s[n - 1], a, b, sel);
    } else {
        lemma_count_before_le(s, a, b, sel, (n - 1) as nat);
    }
}

proof fn lemma_count_before_le(s: Seq<Voice>, a: Voice, b: Voice, sel: VoiceSelection, n: nat)
    requires
        ranks_before(a, b, sel),
        n <= s.len(),
    ensures
        count_before(s, b, sel, n) >= count_before(s, a, sel, n),
    decreases n,
{
    if n > 0 {
        lemma_count_before_le(s, a, b, sel, (n - 1) as nat);
        lemma_ranks_before_order(s[n - 1], a, b, sel);
    }
}

/// The indices below `n` of the voices among the `max` most important.
pub open spec fn kept_indices(s: Seq<Voice>, max: usize, sel: VoiceSelection, n: int) -> Set<int> {
    Set::new(|i: int| 0 <= i < n && rank(s, i, sel) < max)
}

/// The survivors of a run keep ascending key order, are voices of `s`,
/// and are as many as the voices ranked below `max`.
pub proof fn lemma_survivors(s: Seq<Voice>, max: usize, sel: VoiceSelection, n: nat)
    requires
        keys_ascending(s),
        n <= s.len(),
    ensures
        keys_ascending(survivors(s, max, sel, n)),
        forall|x: int| 0 <= x < survivors(s, max, sel, n).len() ==>
            exists|k: int| 0 <= k < n && #[trigger] survivors(s, max, sel, n)[x] == s[k],
        kept_indices(s, max, sel, n as int).finite(),
        survivors(s, max, sel, n).len() == kept_indices(s, max, sel, n as int).len(),
    decreases n,
{
    if n == 0 {
        assert(kept_indices(s, max, sel, 0) =~= Set::<int>::empty());
    } else {
        let m = (n - 1) as nat;
        lemma_survivors(s, max, sel, m);
        let r = survivors(s, max, sel, m);
        let last = n - 1;
        assert(kept(s, voice_key(s[last]), max, sel) <==> rank(s, last, sel) < max) by {
            if kept(s, voice_key(s[last]), max, sel) {
                let i = choose|i: int| 0 <= i < s.len() && voice_key(#[trigger] s[i]) == voice_key(s[last]) && rank(s, i, sel) < max;
                if i != last {
                    if i < last {
                        assert(key_lt(voice_key(s[i]), voice_key(s[last])));
                    } else {
                        assert(key_lt(voice_key(s[last]), voice_key(s[i])));
                    }
                }
            }
        }
        if rank(s, last, sel) < max {
            assert(kept_indices(s, max, sel, n as int) =~= kept_indices(s, max, sel, m as int).insert(last));
            let t = survivors(s, max, sel, n);
            assert forall|x: int, y: int| 0 <= x < y < t.len() implies key_lt(voice_key(#[trigger] t[x]), voice_key(#[trigger] t[y])) by {
                if y < r.len() {
                    assert(t[x] == r[x] && t[y] == r[y]);
                } else {
                    assert(t[x] == r[x]);
                    let k = choose|k: int| 0 <= k < m && #[trigger] r[x] == s[k];
                    assert(t[y] == s[last]);
                }
            }
            assert forall|x: int| 0 <= x < t.len() implies exists|k: int| 0 <= k < n && #[trigger] t[x] == s[k] by {
                if x < r.len() {
                    assert(t[x] == r[x]);
                    let k = choose|k: int| 0 <= k < m && #[trigger] r[x] == s[k];
                    assert(t[x] == s[k]);
                } else {
                    assert(t[x] == s[last]);
                }
            }
        } else {
            assert(kept_indices(s, max, sel, n as int) =~= kept_indices(s, max, sel, m as int));
            let t = survivors(s, max, sel, n);
            assert forall|x: int| 0 <= x < t.len() implies exists|k: int| 0 <= k < n && #[trigger] t[x] == s[k] by {
                let k = choose|k: int| 0 <= k < m && #[trigger] r[x] == s[k];
                assert(t[x] == s[k]);
            }
        }
    }
}

proof fn lemma_kept_at_most_max(s: Seq<Voice>, max: usize, sel: VoiceSelection)
    requires
        keys_ascending(s),
    ensures
        kept_indices(s, max, sel, s.len() as int).len() <= max,
{
    lemma_survivors(s, max, sel, s.len());
    let k = kept_indices(s, max, sel, s.len() as int);
    let f = |i: int| rank(s, i, sel) as int;
    assert forall|i: int, j: int| k.contains(i) && k.contains(j) && #[trigger] f(i) == #[trigger] f(j) implies i == j by {
        if i != j {
            if i < j {
                assert(key_lt(voice_key(s[i]), voice_key(s[j])));
            } else {
                assert(key_lt(voice_key(s[j]), voice_key(s[i])));
            }
            lemma_ranks_before_order(s[i], s[j], s[i], sel);
            if ranks_before(s[i], s[j], sel) {
                lemma_count_before_monotone(s, s[i], s[j], sel, s.len(), i);
            } else {
                lemma_count_before_monotone(s, s[j], s[i], sel, s.len(), j);
            }
        }
    }
    let img = k.map(f);
    lemma_map_size(k, img, f);
    assert(img.subset_of(set_int_range(0, max as int)));
    lemma_int_range(0, max as int);
    lemma_len_subset(img, set_int_range(0, max as int));
}

/// Releases keep the held voices in ascending key order.
pub proof fn lemma_releases_ascending(held: Seq<Voice>, out: Seq<NoteEvent>, es: Seq<NoteEvent>, lo: int, hi: int)
    requires
        keys_ascending(held),
    ensures
        keys_ascending(releases(held, out, es, lo, hi).0),
    decreases hi - lo,
{
    if hi > lo {
        lemma_releases_ascending(held, out, es, lo, hi - 1);
        let r = releases(held, out, es, lo, hi - 1);
        let e = es[hi - 1];
        lemma_remove_ascending(r.0, (e.channel, e.pitch));
    }
}

/// Presses keep the held voices in ascending key order.
pub proof fn lemma_presses_ascending(held: Seq<Voice>, es: Seq<NoteEvent>, lo: int, hi: int)
    requires
        keys_ascending(held),
    ensures
        keys_ascending(presses(held, es, lo, hi)),
    decreases hi - lo,
{
    if hi > lo {
        lemma_presses_ascending(held, es, lo, hi - 1);
        let h = presses(held, es, lo, hi - 1);
        let e = es[hi - 1];
        lemma_insert_ascending(h, (e.channel, e.pitch, e.velocity));
    }
}

/// Law: a run of equal tick keeps the held voices an ordered map (ascending
/// keys, none twice) and leaves at most `max` voices held, so the limited
/// stream never has more than `max` notes sounding at once.
pub proof fn lemma_run_within_limit(held: Seq<Voice>, out: Seq<NoteEvent>, es: Seq<NoteEvent>, i: int, j: int, max: usize, sel: VoiceSelection)
    requires
        keys_ascending(held),
    ensures
        keys_ascending(run_step(held, out, es, i, j, max, sel).0),
        run_step(held, out, es, i, j, max, sel).0.len() <= max,
{
    lemma_releases_ascending(held, out, es, i, j);
    let pre = releases(held, out, es, i, j).0;
    lemma_presses_ascending(pre, es, i, j);
    let h = presses(pre, es, i, j);
    if h.len() > max {
        lemma_survivors(h, max, sel, h.len());
        lemma_kept_at_most_max(h, max, sel);
    }
}

/// The limited event stream from event `i` on, given the held voices and
/// output so far.
pub open spec fn limit_from(es: Seq<NoteEvent>, max: usize, sel: VoiceSelection, i: nat, held: Seq<Voice>, out: Seq<NoteEvent>) -> Seq<NoteEvent>
    decreases es.len() - i,
{
    if i >= es.len() {
        out
    } else {
        let j = run_end(es, es[i as int].abs_tick, i);
        proof {
            lemma_run_end(es, es[i as int].abs_tick, i);
        }
        let r = run_step(held, out, es, i as int, j as int, max, sel);
        limit_from(es, max, sel, j, r.0, r.1)
    }
}

/// The events of `es` with polyphony reduced to `max` voices.
pub open spec fn spec_limit_voices(es: Seq<NoteEvent>, max: usize, sel: VoiceSelection) -> Seq<NoteEvent> {
    limit_from(es, max, sel, 0, Seq::empty(), Seq::empty())
}

/// Reduce the polyphony of an event stream to at most `max_voices` notes
/// held at once.
///
/// Runs of equal tick are taken in turn. Releases of held voices pass (a
/// release of a voice let go earlier is dropped); presses are held; if more
/// than `max_voices` voices are then held, the least important are let go: a
/// voice held from before the run gets a release at the run's tick (in key
/// order), a press of the run is suppressed. The presses that stay pass in
/// their order.
pub fn limit_voices(events: &[NoteEvent], max_voices: usize, selection: VoiceSelection) -> (out: Vec<NoteEvent>)
    requires
        max_voices > 0,
    ensures
        out@ == spec_limit_voices(events@, max_voices, selection),
{
    let ghost es = events@;
    let n = events.len();
    let mut held: Vec<Voice> = Vec::new();
    let mut output: Vec<NoteEvent> = Vec::new();
    let mut i: usize = 0;
    assert(held@ =~= Seq::<Voice>::empty());
    assert(output@ =~= Seq::<NoteEvent>::empty());
    while i < n
        invariant
            es == events@,
            n == es.len(),
            i <= n,
            limit_from(es, max_voices, selection, i as nat, held@, output@) == spec_limit_voices(es, max_voices, selection),
        decreases n - i,
    {
        let tick = events[i].abs_tick;
        let mut j: usize = i;
        proof {
            lemma_run_end(es, tick, i as nat);
        }
        while j < n && events[j].abs_tick == tick
            invariant
                es == events@,
                n == es.len(),
                i <= j <= n,
                run_end(es, tick, i as nat) == run_end(es, tick, j as nat),
            decreases n - j,
        {
            j += 1;
        }
        let ghost held0 = held@;
        let ghost out0 = output@;
        let mut k: usize = i;
        while k < j
            invariant
                es == events@,
                i <= k <= j <= n,
                n == es.len(),
                held@ == releases(held0, out0, es, i as int, k as int).0,
                output@ == releases(held0, out0, es, i as int, k as int).1,
            decreases j - k,
        {
            let e = events[k];
            if !e.is_on {
                let ghost before = held@;
                if release(&mut held, (e.channel, e.pitch)) {
                    output.push(e);
                } else {
                    proof {
                        lemma_remove_absent(before, (e.channel, e.pitch));
                    }
                }
            }
            k += 1;
        }
        let pre = copy_voices(&held);
        let ghost out1 = output@;
        k = i;
        while k < j
            invariant
                es == events@,
                i <= k <= j <= n,
                n == es.len(),
                held@ == presses(pre@, es, i as int, k as int),
                output@ == out1,
            decreases j - k,
        {
            let e = events[k];
            if e.is_on {
                hold(&mut held, (e.channel, e.pitch, e.velocity));
            }
            k += 1;
        }
        if held.len() > max_voices {
            let keep = rank_and_keep(&held, max_voices, selection);
            let mut survivors_v: Vec<Voice> = Vec::new();
            let mut m: usize = 0;
            while m < held.len()
                invariant
                    m <= held@.len(),
                    forall|q: (u8, u8)| keep@.contains(q) <==> kept(held@, q, max_voices, selection),
                    survivors_v@ == survivors(held@, max_voices, selection, m as nat),
                    output@ == evictions(out1, held@, pre@, max_voices, selection, tick, m as nat),
                decreases held@.len() - m,
            {
                let v = held[m];
                if contains_key(&keep, (v.0, v.1)) {
                    survivors_v.push(v);
                } else {
                    let mut was_held = false;
                    let mut q: usize = 0;
                    while q < pre.len()
                        invariant
                            q <= pre@.len(),
                            was_held == (exists|x: int| 0 <= x < q && voice_key(#[trigger] pre@[x]) == voice_key(v)),
                        decreases pre@.len() - q,
                    {
                        if pre[q].0 == v.0 && pre[q].1 == v.1 {
                            was_held = true;
                        }
                        q += 1;
                    }
                    if was_held {
                        output.push(NoteEvent { abs_tick: tick, is_on: false, pitch: v.1, channel: v.0, velocity: 0 });
                    }
                }
                m += 1;
            }
            let ghost out2 = output@;
            k = i;
            while k < j
                invariant
                    es == events@,
                    i <= k <= j <= n,
                    n == es.len(),
                    forall|q: (u8, u8)| keep@.contains(q) <==> kept(held@, q, max_voices, selection),
                    output@ == passed_presses(out2, es, i as int, k as int, held@, max_voices, selection, true),
                decreases j - k,
            {
                let e = events[k];
                if e.is_on && contains_key(&keep, (e.channel, e.pitch)) {
                    output.push(e);
                }
                k += 1;
            }
            held = survivors_v;
        } else {
            k = i;
            while k < j
                invariant
                    es == events@,
                    i <= k <= j <= n,
                    n == es.len(),
                    output@ == passed_presses(out1, es, i as int, k as int, held@, max_voices, selection, false),
                decreases j - k,
            {
                let e = events[k];
                if e.is_on {
                    output.push(e);
                }
                k += 1;
            }
        }
        i = j;
    }
    output
}

/// Whether `e` is one of the events `lo..hi` of `es`.
pub open spec fn from_events(e: NoteEvent, es: Seq<NoteEvent>, lo: int, hi: int) -> bool {
    exists|k: int| lo <= k < hi && es[k] == e
}

/// What the events of `s` from `start` on are: each comes from `lo..hi` of
/// `es` (releases when `ons` is false, presses when it is true).
pub open spec fn tail_from(s: Seq<NoteEvent>, start: int, es: Seq<NoteEvent>, lo: int, hi: int, ons: bool) -> bool {
    forall|p: int| start <= p < s.len() ==> (#[trigger] s[p]).is_on == ons && from_events(s[p], es, lo, hi)
}

proof fn lemma_releases_tail(held: Seq<Voice>, out: Seq<NoteEvent>, es: Seq<NoteEvent>, lo: int, hi: int)
    ensures
        releases(held, out, es, lo, hi).1.len() >= out.len(),
        releases(held, out, es, lo, hi).1.take(out.len() as int) == out,
        tail_from(releases(held, out, es, lo, hi).1, out.len() as int, es, lo, hi, false),
    decreases hi - lo,
{
    if hi <= lo {
        assert(out.take(out.len() as int) =~= out);
    } else {
        lemma_releases_tail(held, out, es, lo, hi - 1);
        let r = releases(held, out, es, lo, hi - 1).1;
        let t = releases(held, out, es, lo, hi).1;
        assert forall|p: int| out.len() <= p < t.len() implies (#[trigger] t[p]).is_on == false && from_events(t[p], es, lo, hi) by {
            if p < r.len() {
                assert(t[p] == r[p]);
                let k = choose|k: int| lo <= k < hi - 1 && es[k] == r[p];
            } else {
                assert(t[p] == es[hi - 1]);
            }
        }
        assert(t.take(out.len() as int) =~= r.take(out.len() as int));
    }
}

proof fn lemma_passed_tail(out: Seq<NoteEvent>, es: Seq<NoteEvent>, lo: int, hi: int, held: Seq<Voice>, max: usize, sel: VoiceSelection, limited: bool)
    ensures
        passed_presses(out, es, lo, hi, held, max, sel, limited).len() >= out.len(),
        passed_presses(out, es, lo, hi, held, max, sel, limited).take(out.len() as int) == out,
        tail_from(passed_presses(out, es, lo, hi, held, max, sel, limited), out.len() as int, es, lo, hi, true),
    decreases hi - lo,
{
    if hi <= lo {
        assert(out.take(out.len() as int) =~= out);
    } else {
        lemma_passed_tail(out, es, lo, hi - 1, held, max, sel, limited);
        let r = passed_presses(out, es, lo, hi - 1, held, max, sel, limited);
        let t = passed_presses(out, es, lo, hi, held, max, sel, limited);
        assert forall|p: int| out.len() <= p < t.len() implies (#[trigger] t[p]).is_on == true && from_events(t[p], es, lo, hi) by {
            if p < r.len() {
                assert(t[p] == r[p]);
                let k = choose|k: int| lo <= k < hi - 1 && es[k] == r[p];
            } else {
                assert(t[p] == es[hi - 1]);
            }
        }
        assert(t.take(out.len() as int) =~= r.take(out.len() as int));
    }
}

proof fn lemma_evictions_tail(out: Seq<NoteEvent>, held: Seq<Voice>, pre: Seq<Voice>, max: usize, sel: VoiceSelection, tick: u64, n: nat)
    ensures
        evictions(out, held, pre, max, sel, tick, n).len() >= out.len(),
        evictions(out, held, pre, max, sel, tick, n).take(out.len() as int) == out,
        forall|p: int| out.len() <= p < evictions(out, held, pre, max, sel, tick, n).len() ==>
            !(#[trigger] evictions(out, held, pre, max, sel, tick, n)[p]).is_on
            && evictions(out, held, pre, max, sel, tick, n)[p].abs_tick == tick,
    decreases n,
{
    if n == 0 {
        assert(out.take(out.len() as int) =~= out);
    } else {
        lemma_evictions_tail(out, held, pre, max, sel, tick, (n - 1) as nat);
        let r = evictions(out, held, pre, max, sel, tick, (n - 1) as nat);
        let t = evictions(out, held, pre, max, sel, tick, n);
        assert forall|p: int| out.len() <= p < t.len() implies !(#[trigger] t[p]).is_on && t[p].abs_tick == tick by {
            if p < r.len() {
                assert(t[p] == r[p]);
            }
        }
        assert(t.take(out.len() as int) =~= r.take(out.len() as int));
    }
}

proof fn lemma_run_end_ticks(es: Seq<NoteEvent>, tick: u64, j: nat, k: int)
    requires
        j <= k < run_end(es, tick, j),
    ensures
        es[k].abs_tick == tick,
        k < es.len(),
    decreases es.len() - j,
{
    if j < es.len() && es[j as int].abs_tick == tick && k > j {
        lemma_run_end_ticks(es, tick, j + 1, k);
    }
}

/// Whether `s[lo..]` is in timeline order: by tick, releases before presses
/// at the same tick.
pub open spec fn ordered_from(s: Seq<NoteEvent>, lo: int) -> bool {
    forall|a: int, b: int| lo <= a < b < s.len() ==> {
        ||| (#[trigger] s[a]).abs_tick < (#[trigger] s[b]).abs_tick
        ||| (s[a].abs_tick == s[b].abs_tick && (!s[a].is_on || s[b].is_on))
    }
}

/// Law: the output of a run extends what came before; it is at the run's
/// tick, its releases come before its presses, and each of its presses is
/// a press of the run.
pub proof fn lemma_run_output(held: Seq<Voice>, out: Seq<NoteEvent>, es: Seq<NoteEvent>, i: nat, max: usize, sel: VoiceSelection)
    requires
        i < es.len(),
    ensures
        ({
            let j = run_end(es, es[i as int].abs_tick, i);
            let o = run_step(held, out, es, i as int, j as int, max, sel).1;
            &&& o.len() >= out.len()
            &&& o.take(out.len() as int) == out
            &&& forall|p: int| out.len() <= p < o.len() ==> (#[trigger] o[p]).abs_tick == es[i as int].abs_tick
            &&& forall|p: int| out.len() <= p < o.len() && (#[trigger] o[p]).is_on ==> from_events(o[p], es, i as int, j as int)
            &&& ordered_from(o, out.len() as int)
        }),
{
    let tick = es[i as int].abs_tick;
    let j = run_end(es, tick, i);
    lemma_run_end(es, tick, i);
    let r = releases(held, out, es, i as int, j as int);
    lemma_releases_tail(held, out, es, i as int, j as int);
    let pre = r.0;
    let h = presses(pre, es, i as int, j as int);
    let o = run_step(held, out, es, i as int, j as int, max, sel).1;
    let (mid, limited) = if h.len() > max {
        (evictions(r.1, h, pre, max, sel, tick, h.len()), true)
    } else {
        (r.1, false)
    };
    if h.len() > max {
        lemma_evictions_tail(r.1, h, pre, max, sel, tick, h.len());
    }
    lemma_passed_tail(mid, es, i as int, j as int, h, max, sel, limited);
    assert(o == passed_presses(mid, es, i as int, j as int, h, max, sel, limited));
    assert(mid.take(r.1.len() as int) == r.1);
    assert(o.take(mid.len() as int) == mid);
    // Where each part of the run's output stands in `o`.
    assert forall|p: int| out.len() <= p < o.len() implies
        (#[trigger] o[p]).abs_tick == tick && (o[p].is_on <==> p >= mid.len())
            && (o[p].is_on ==> from_events(o[p], es, i as int, j as int)) by {
        if p < mid.len() {
            assert(o[p] == mid[p]);
            if p < r.1.len() {
                assert(mid[p] == r.1[p]);
                let k = choose|k: int| i <= k < j && es[k] == r.1[p];
                lemma_run_end_ticks(es, tick, i, k);
            }
        } else {
            let k = choose|k: int| i <= k < j && es[k] == o[p];
            lemma_run_end_ticks(es, tick, i, k);
        }
    }
    assert(o.take(out.len() as int) =~= out) by {
        assert(o.take(mid.len() as int) == mid);
        assert(mid.take(r.1.len() as int) == r.1);
        assert(r.1.take(out.len() as int) == out);
    }
}

/// Law: when the events are in tick order, the limited stream is in
/// timeline order (by tick, releases before presses at a tick) and each of
/// its presses is a press of the events.
pub proof fn lemma_limit_output_ordered(es: Seq<NoteEvent>, max: usize, sel: VoiceSelection)
    requires
        forall|a: int, b: int| 0 <= a < b < es.len() ==> (#[trigger] es[a]).abs_tick <= (#[trigger] es[b]).abs_tick,
    ensures
        ordered_from(spec_limit_voices(es, max, sel), 0),
        forall|p: int| 0 <= p < spec_limit_voices(es, max, sel).len() && (#[trigger] spec_limit_voices(es, max, sel)[p]).is_on
            ==> from_events(spec_limit_voices(es, max, sel)[p], es, 0, es.len() as int),
{
    lemma_limit_from_ordered(es, max, sel, 0, Seq::empty(), Seq::empty());
}

proof fn lemma_limit_from_ordered(es: Seq<NoteEvent>, max: usize, sel: VoiceSelection, i: nat, held: Seq<Voice>, out: Seq<NoteEvent>)
    requires
        forall|a: int, b: int| 0 <= a < b < es.len() ==> (#[trigger] es[a]).abs_tick <= (#[trigger] es[b]).abs_tick,
        i <= es.len(),
        ordered_from(out, 0),
        i < es.len() ==> forall|p: int| 0 <= p < out.len() ==> (#[trigger] out[p]).abs_tick < es[i as int].abs_tick,
        forall|p: int| 0 <= p < out.len() && (#[trigger] out[p]).is_on ==> from_events(out[p], es, 0, i as int),
    ensures
        ordered_from(limit_from(es, max, sel, i, held, out), 0),
        forall|p: int| 0 <= p < limit_from(es, max, sel, i, held, out).len() && (#[trigger] limit_from(es, max, sel, i, held, out)[p]).is_on
            ==> from_events(limit_from(es, max, sel, i, held, out)[p], es, 0, es.len() as int),
    decreases es.len() - i,
{
    if i >= es.len() {
        assert forall|p: int| 0 <= p < out.len() && (#[trigger] out[p]).is_on implies from_events(out[p], es, 0, es.len() as int) by {
            let k = choose|k: int| 0 <= k < i && es[k] == out[p];
        }
    } else {
        let tick = es[i as int].abs_tick;
        let j = run_end(es, tick, i);
        lemma_run_end(es, tick, i);
        lemma_run_output(held, out, es, i, max, sel);
        let r = run_step(held, out, es, i as int, j as int, max, sel);
        let o = r.1;
        assert forall|p: int| 0 <= p < out.len() implies o[p] == #[trigger] out[p] by {
            assert(o.take(out.len() as int)[p] == o[p]);
        }
        assert(ordered_from(o, 0)) by {
            assert forall|a: int, b: int| 0 <= a < b < o.len() implies {
                ||| (#[trigger] o[a]).abs_tick < (#[trigger] o[b]).abs_tick
                ||| (o[a].abs_tick == o[b].abs_tick && (!o[a].is_on || o[b].is_on))
            } by {
                if b < out.len() {
                    assert(o[a] == out[a] && o[b] == out[b]);
                } else if a < out.len() {
                    assert(o[a] == out[a]);
                }
            }
        }
        assert forall|p: int| 0 <= p < o.len() && (#[trigger] o[p]).is_on implies from_events(o[p], es, 0, j as int) by {
            if p < out.len() {
                assert(o[p] == out[p]);
                let k = choose|k: int| 0 <= k < i && es[k] == out[p];
            } else {
                let k = choose|k: int| i <= k < j && es[k] == o[p];
            }
        }
        if j < es.len() {
            assert(es[j as int].abs_tick != tick);
            assert(es[i as int].abs_tick <= es[j as int].abs_tick);
            assert forall|p: int| 0 <= p < o.len() implies (#[trigger] o[p]).abs_tick < es[j as int].abs_tick by {
                if p < out.len() {
                    assert(o[p] == out[p]);
                }
            }
        }
        lemma_limit_from_ordered(es, max, sel, j, r.0, o);
    }
}

} // verus!
