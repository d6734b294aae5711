//! Whether an app is recording right now: the state behind the red dot on the mic icon.
//!
//! Windows keeps a record per app of when it last started and stopped using the microphone. The
//! records form a tree of keys, a packaged app one level down, a desktop app two. This module says
//! which of them hold the microphone, and when a change of the answer is to be told to whom.
use crate::text;
use vstd::prelude::*;

verus! {

/// How far below a root an app's record is looked for. One level more than any record has been
/// seen at; the walk runs on a caller's thread, so it has to be bounded.
pub const MAX_DEPTH: u32 = 3;

/// How long to wait for a change before looking again although none was announced.
pub const RECHECK_MS: u32 = 5_000;

/// How often to look where no change can be announced at all.
pub const POLL_MS: u32 = 2_000;

/// One key of the consent store: its name, its two timestamps where it has them, and the keys
/// below it.
pub struct ConsentKey {
    pub name: String,
    pub start: Option<u64>,
    pub stop: Option<u64>,
    pub subkeys: Vec<ConsentKey>,
}

/// Whether the timestamps say that the app has the microphone open: it started, and has not
/// stopped since. A timestamp that is not there counts as zero.
pub open spec fn is_holding(start: Option<u64>, stop: Option<u64>) -> bool {
    let started = match start {
        Some(t) => t,
        None => 0,
    };
    let stopped = match stop {
        Some(t) => t,
        None => 0,
    };
    started != 0 && stopped < started
}

/// Whether an app with these timestamps has the microphone open now.
pub fn holding(start: Option<u64>, stop: Option<u64>) -> (r: bool)
    ensures
        r == is_holding(start, stop),
{
    let start: u64 = match start {
        Some(t) => t,
        None => 0,
    };
    let stop: u64 = match stop {
        Some(t) => t,
        None => 0,
    };
    start != 0 && stop < start
}

/// What a path in the store reads as: without the `NonPackaged` prefix, and with the separators
/// that the store writes as `#` put back.
pub open spec fn label_text(path: Seq<char>) -> Seq<char> {
    text::replaced(text::without_prefixes(path, "NonPackaged\\"@), '#', '\\')
}

/// A path in the store as something worth printing.
pub fn label(path: &str) -> (r: String)
    ensures
        r@ == label_text(path@),
{
    let bare = text::trim_start_matches(path, "NonPackaged\\");
    text::replace_char(bare.as_str(), '#', '\\')
}

/// The path of a key below another.
pub open spec fn child_path(path: Seq<char>, name: Seq<char>) -> Seq<char> {
    if path.len() == 0 {
        name
    } else {
        path.push('\\') + name
    }
}

/// The labels of the apps that hold the microphone, in `key` and down to `depth` levels below it,
/// a key before those below it.
pub open spec fn users_at(key: ConsentKey, path: Seq<char>, depth: nat) -> Seq<Seq<char>>
    decreases depth, 0nat,
{
    let own = if is_holding(key.start, key.stop) {
        seq![label_text(path)]
    } else {
        Seq::empty()
    };
    if depth == 0 {
        own
    } else {
        own + users_below(key.subkeys@, path, (depth - 1) as nat, key.subkeys@.len())
    }
}

/// The labels found in the first `n` of `keys`, the keys right below `path`.
pub open spec fn users_below(
    keys: Seq<ConsentKey>,
    path: Seq<char>,
    depth: nat,
    n: nat,
) -> Seq<Seq<char>>
    decreases depth, n + 1,
{
    if n == 0 || n > keys.len() {
        Seq::empty()
    } else {
        users_below(keys, path, depth, (n - 1) as nat) + users_at(
            keys[n - 1],
            child_path(path, keys[n - 1].name@),
            depth,
        )
    }
}

/// The labels found in the first `n` of the store's roots.
pub open spec fn users_in(roots: Seq<ConsentKey>, n: nat) -> Seq<Seq<char>>
    decreases n,
{
    if n == 0 || n > roots.len() {
        Seq::empty()
    } else {
        users_in(roots, (n - 1) as nat) + users_at(roots[n - 1], Seq::empty(), MAX_DEPTH as nat)
    }
}

/// The texts of a list of strings.
pub open spec fn texts(v: Seq<String>) -> Seq<Seq<char>> {
    v.map_values(|s: String| s@)
}

proof fn lemma_texts_push(v: Seq<String>, s: String)
    ensures
        texts(v.push(s)) == texts(v).push(s@),
{
    assert(texts(v.push(s)) =~= texts(v).push(s@));
}

/// Walks `key` and the keys below it, adding every app that has the microphone open.
pub fn collect(key: &ConsentKey, path: &str, depth: u32, found: &mut Vec<String>)
    ensures
        texts(final(found)@) == texts(old(found)@) + users_at(*key, path@, depth as nat),
    decreases depth,
{
    let ghost before = texts(found@);
    if holding(key.start, key.stop) {
        let name = label(path);
        proof {
            lemma_texts_push(found@, name);
        }
        found.push(name);
    }
    let ghost own = if is_holding(key.start, key.stop) {
        seq![label_text(path@)]
    } else {
        Seq::<Seq<char>>::empty()
    };
    proof {
        assert(texts(found@) =~= before + own);
    }
    if depth == 0 {
        return;
    }
    let mut i: usize = 0;
    proof {
        assert(before + own + Seq::<Seq<char>>::empty() =~= before + own);
    }
    while i < key.subkeys.len()
        invariant
            i <= key.subkeys.len(),
            depth > 0,
            texts(found@) == before + own + users_below(
                key.subkeys@,
                path@,
                (depth - 1) as nat,
                i as nat,
            ),
        decreases key.subkeys.len() - i,
    {
        let child = &key.subkeys[i];
        let mut below = String::new();
        if text::chars_of(path).len() > 0 {
            below.append(path);
            below.push('\\');
        }
        below.append(child.name.as_str());
        proof {
            assert(below@ =~= child_path(path@, child.name@));
        }
        let ghost had = texts(found@);
        let ghost seen = users_below(key.subkeys@, path@, (depth - 1) as nat, i as nat);
        let ghost new = users_at(*child, below@, (depth - 1) as nat);
        collect(child, below.as_str(), depth - 1, found);
        i = i + 1;
        proof {
            assert(before + own + seen + new =~= before + own + (seen + new));
        }
    }
    proof {
        let all = users_below(key.subkeys@, path@, (depth - 1) as nat, key.subkeys@.len());
        assert(before + own + all =~= before + (own + all));
    }
}

/// The apps that hold the microphone, named for a human, over all the store's roots.
pub fn users(roots: &[ConsentKey]) -> (r: Vec<String>)
    ensures
        texts(r@) == users_in(roots@, roots@.len()),
{
    let mut found: Vec<String> = Vec::new();
    let mut i: usize = 0;
    proof {
        assert(texts(found@) =~= Seq::empty());
    }
    while i < roots.len()
        invariant
            i <= roots.len(),
            texts(found@) == users_in(roots@, i as nat),
        decreases roots.len() - i,
    {
        collect(&roots[i], "", MAX_DEPTH, &mut found);
        i = i + 1;
        proof {
            reveal_strlit("");
            assert(""@ =~= Seq::empty());
        }
    }
    found
}

/// What the watcher knows: the answer, whether it runs, and the thread to tell of a change.
#[derive(Debug, Clone, Copy, PartialEq, Eq)]
pub struct MicWatch {
    pub in_use: bool,
    pub watching: bool,
    /// Zero until a thread asks to be told.
    pub notify_thread: u32,
}

/// What a sweep of the store showed against what was known.
#[derive(Debug, Clone, Copy, PartialEq, Eq, Structural)]
pub enum Flip {
    Unchanged,
    InUse,
    Released,
}

/// What is to be told where the microphone was in use or not, and is now.
pub open spec fn flip_of(was: bool, now: bool) -> Flip {
    if was == now {
        Flip::Unchanged
    } else if now {
        Flip::InUse
    } else {
        Flip::Released
    }
}

/// A change is told exactly where there is one: that the microphone came into use where it was free, and that
/// it was released where it was in use.
pub proof fn law_every_change_is_told(was: bool, now: bool)
    ensures
        flip_of(was, now) == Flip::InUse <==> !was && now,
        flip_of(was, now) == Flip::Released <==> was && !now,
{
}

impl MicWatch {
    /// Nothing known, nobody to tell, no watcher running.
    pub fn new() -> (r: MicWatch)
        ensures
            !r.in_use,
            !r.watching,
            r.notify_thread == 0,
    {
        MicWatch { in_use: false, watching: false, notify_thread: 0 }
    }

    /// Whether the caller is the first to ask and has to start the watcher.
    pub fn start(&mut self) -> (first: bool)
        ensures
            first == !old(self).watching,
            final(self).watching,
            final(self).in_use == old(self).in_use,
            final(self).notify_thread == old(self).notify_thread,
    {
        let first = !self.watching;
        self.watching = true;
        first
    }

    /// Takes over a sweep without announcing it: the answer for the first frame drawn.
    pub fn seed(&mut self, users: &[String])
        ensures
            final(self).in_use == (users@.len() > 0),
            final(self).watching == old(self).watching,
            final(self).notify_thread == old(self).notify_thread,
    {
        self.in_use = users.len() > 0;
    }

    /// Takes over a sweep, and says whether the answer changed and which way.
    pub fn observe(&mut self, users: &[String]) -> (flip: Flip)
        ensures
            final(self).in_use == (users@.len() > 0),
            final(self).watching == old(self).watching,
            final(self).notify_thread == old(self).notify_thread,
            flip == flip_of(old(self).in_use, users@.len() > 0),
    {
        let now = users.len() > 0;
        let was = self.in_use;
        self.in_use = now;
        if now == was {
            Flip::Unchanged
        } else if now {
            Flip::InUse
        } else {
            Flip::Released
        }
    }

    /// The thread to tell of a change, if one asked.
    pub fn announce(&self) -> (r: Option<u32>)
        ensures
            r == if self.notify_thread == 0 {
                None::<u32>
            } else {
                Some(self.notify_thread)
            },
    {
        if self.notify_thread == 0 {
            None
        } else {
            Some(self.notify_thread)
        }
    }
}

/// Has `thread_id` told whenever the answer changes.
pub fn notify_thread(watch: &mut MicWatch, thread_id: u32)
    ensures
        final(watch).notify_thread == thread_id,
        final(watch).in_use == old(watch).in_use,
        final(watch).watching == old(watch).watching,
{
    watch.notify_thread = thread_id;
}

/// How long to wait for the next sweep, with `armed` roots announcing their changes.
pub fn wait_ms(armed: usize) -> (r: u32)
    ensures
        r == if armed > 0 {
            RECHECK_MS
        } else {
            POLL_MS
        },
{
    if armed > 0 {
        RECHECK_MS
    } else {
        POLL_MS
    }
}

/// A key whose start is later than its stop holds the microphone whether or not an earlier
/// session left a stop behind; a stop at or after the start releases it.
pub proof fn law_only_a_later_stop_releases(start: u64, stop: u64)
    requires
        start != 0,
    ensures
        is_holding(Some(start), None),
        is_holding(Some(start), Some(stop)) <==> stop < start,
{
}

/// Whether two keys look the same down to `depth` levels below them.
pub open spec fn same_down_to(a: ConsentKey, b: ConsentKey, depth: nat) -> bool
    decreases depth,
{
    &&& is_holding(a.start, a.stop) == is_holding(b.start, b.stop)
    &&& depth > 0 ==> a.subkeys@.len() == b.subkeys@.len() && forall|i: int|
        0 <= i < a.subkeys@.len() ==> (#[trigger] a.subkeys@[i]).name@ == b.subkeys@[i].name@
            && same_down_to(a.subkeys@[i], b.subkeys@[i], (depth - 1) as nat)
}

/// What is found in a key and below it never depends on anything deeper than the walk goes.
pub proof fn law_the_walk_is_bounded(a: ConsentKey, b: ConsentKey, path: Seq<char>, depth: nat)
    requires
        same_down_to(a, b, depth),
    ensures
        users_at(a, path, depth) == users_at(b, path, depth),
    decreases depth, 0nat,
{
    if depth > 0 {
        lemma_alike_below(a, b, path, depth, a.subkeys@.len());
    }
}

proof fn lemma_alike_below(a: ConsentKey, b: ConsentKey, path: Seq<char>, depth: nat, n: nat)
    requires
        depth > 0,
        same_down_to(a, b, depth),
        n <= a.subkeys@.len(),
    ensures
        users_below(a.subkeys@, path, (depth - 1) as nat, n) == users_below(
            b.subkeys@,
            path,
            (depth - 1) as nat,
            n,
        ),
    decreases depth - 1, n + 1,
{
    if n > 0 {
        let x = a.subkeys@[n - 1];
        lemma_alike_below(a, b, path, depth, (n - 1) as nat);
        law_the_walk_is_bounded(
            x,
            b.subkeys@[n - 1],
            child_path(path, x.name@),
            (depth - 1) as nat,
        );
    }
}

/// Nothing is found in the first keys of a row exactly where nothing is found in any of them, so that
/// no app is passed over for another.
pub proof fn law_no_user_means_none_anywhere(keys: Seq<ConsentKey>, path: Seq<char>, depth: nat, n: nat)
    requires
        n <= keys.len(),
    ensures
        users_below(keys, path, depth, n).len() == 0 <==> (forall|i: int|
            0 <= i < n ==> users_at(
                #[trigger] keys[i],
                child_path(path, keys[i].name@),
                depth,
            ).len() == 0),
    decreases n,
{
    if n > 0 {
        law_no_user_means_none_anywhere(keys, path, depth, (n - 1) as nat);
        assert(users_below(keys, path, depth, n).len() == users_below(
            keys,
            path,
            depth,
            (n - 1) as nat,
        ).len() + users_at(keys[n - 1], child_path(path, keys[n - 1].name@), depth).len());
        if users_below(keys, path, depth, n).len() == 0 {
            assert forall|i: int| 0 <= i < n implies users_at(
                #[trigger] keys[i],
                child_path(path, keys[i].name@),
                depth,
            ).len() == 0 by {}
        }
    }
}

/// A key that never started, or started at zero, holds nothing.
pub proof fn law_what_never_started_holds_nothing(stop: Option<u64>)
    ensures
        !is_holding(None, stop),
        !is_holding(Some(0), stop),
{
}

/// Whether there is a key where the given steps lead, each the place of a key among those below the last.
pub open spec fn leads(key: ConsentKey, steps: Seq<int>) -> bool
    decreases steps.len(),
{
    steps.len() > 0 ==> 0 <= steps[0] < key.subkeys@.len() && leads(
        key.subkeys@[steps[0]],
        steps.skip(1),
    )
}

/// The key where the given steps lead.
pub open spec fn key_at(key: ConsentKey, steps: Seq<int>) -> ConsentKey
    decreases steps.len(),
{
    if steps.len() == 0 {
        key
    } else {
        key_at(key.subkeys@[steps[0]], steps.skip(1))
    }
}

/// The names along the way, with a backslash between two.
pub open spec fn way(key: ConsentKey, path: Seq<char>, steps: Seq<int>) -> Seq<char>
    decreases steps.len(),
{
    if steps.len() == 0 {
        path
    } else {
        let next = key.subkeys@[steps[0]];
        way(
            next,
            if path.len() == 0 {
                next.name@
            } else {
                path + seq!['\\'] + next.name@
            },
            steps.skip(1),
        )
    }
}

/// Every app that holds the microphone is found: wherever below a root its key stands, if not too deep, the
/// name of that place is among those found.
pub proof fn law_every_app_that_records_is_found(roots: Seq<ConsentKey>, r: int, steps: Seq<int>)
    requires
        0 <= r < roots.len(),
        steps.len() <= 3,
        leads(roots[r], steps),
        is_holding(key_at(roots[r], steps).start, key_at(roots[r], steps).stop),
    ensures
        users_in(roots, roots.len()).contains(label_text(way(roots[r], Seq::empty(), steps))),
{
    lemma_found_in_key(roots[r], Seq::empty(), MAX_DEPTH as nat, steps);
    lemma_found_in_roots(roots, roots.len(), r, label_text(way(roots[r], Seq::empty(), steps)));
}

proof fn lemma_found_in_key(key: ConsentKey, path: Seq<char>, depth: nat, steps: Seq<int>)
    requires
        steps.len() <= depth,
        leads(key, steps),
        is_holding(key_at(key, steps).start, key_at(key, steps).stop),
    ensures
        users_at(key, path, depth).contains(label_text(way(key, path, steps))),
    decreases depth,
{
    let found = users_at(key, path, depth);
    if steps.len() == 0 {
        assert(found[0] == label_text(path));
    } else {
        let i = steps[0];
        let next = key.subkeys@[i];
        let below = child_path(path, next.name@);
        assert(below =~= if path.len() == 0 {
            next.name@
        } else {
            path + seq!['\\'] + next.name@
        });
        let d = (depth - 1) as nat;
        let what = label_text(way(key, path, steps));
        lemma_found_in_key(next, below, d, steps.skip(1));
        lemma_found_below(key.subkeys@, path, d, key.subkeys@.len(), i, what);
        let row = users_below(key.subkeys@, path, d, key.subkeys@.len());
        let k = choose|k: int| 0 <= k < row.len() && row[k] == what;
        assert(found[found.len() - row.len() + k] == what);
    }
}

proof fn lemma_found_below(
    keys: Seq<ConsentKey>,
    path: Seq<char>,
    depth: nat,
    n: nat,
    i: int,
    what: Seq<char>,
)
    requires
        0 <= i < n <= keys.len(),
        users_at(keys[i], child_path(path, keys[i].name@), depth).contains(what),
    ensures
        users_below(keys, path, depth, n).contains(what),
    decreases n,
{
    let less = users_below(keys, path, depth, (n - 1) as nat);
    let own = users_at(keys[n - 1], child_path(path, keys[n - 1].name@), depth);
    let all = users_below(keys, path, depth, n);
    if i == n - 1 {
        let k = choose|k: int| 0 <= k < own.len() && own[k] == what;
        assert(all[less.len() + k] == what);
    } else {
        lemma_found_below(keys, path, depth, (n - 1) as nat, i, what);
        let k = choose|k: int| 0 <= k < less.len() && less[k] == what;
        assert(all[k] == what);
    }
}

proof fn lemma_found_in_roots(roots: Seq<ConsentKey>, n: nat, r: int, what: Seq<char>)
    requires
        0 <= r < n <= roots.len(),
        users_at(roots[r], Seq::empty(), MAX_DEPTH as nat).contains(what),
    ensures
        users_in(roots, n).contains(what),
    decreases n,
{
    let less = users_in(roots, (n - 1) as nat);
    let own = users_at(roots[n - 1], Seq::empty(), MAX_DEPTH as nat);
    let all = users_in(roots, n);
    if r == n - 1 {
        let k = choose|k: int| 0 <= k < own.len() && own[k] == what;
        assert(all[less.len() + k] == what);
    } else {
        lemma_found_in_roots(roots, (n - 1) as nat, r, what);
        let k = choose|k: int| 0 <= k < less.len() && less[k] == what;
        assert(all[k] == what);
    }
}

/// Nothing is found but apps that hold the microphone: each name found is that of a place below a root, not
/// too deep, whose key says so.
pub proof fn law_only_apps_that_record_are_found(roots: Seq<ConsentKey>, k: int) -> (found: (int, Seq<int>))
    requires
        0 <= k < users_in(roots, roots.len()).len(),
    ensures
        ({
            let (r, steps) = found;
            &&& 0 <= r < roots.len()
            &&& steps.len() <= 3
            &&& leads(roots[r], steps)
            &&& is_holding(key_at(roots[r], steps).start, key_at(roots[r], steps).stop)
            &&& users_in(roots, roots.len())[k] == label_text(way(roots[r], Seq::empty(), steps))
        }),
{
    lemma_root_of(roots, roots.len(), k)
}

proof fn lemma_root_of(roots: Seq<ConsentKey>, n: nat, k: int) -> (found: (int, Seq<int>))
    requires
        n <= roots.len(),
        0 <= k < users_in(roots, n).len(),
    ensures
        ({
            let (r, steps) = found;
            &&& 0 <= r < n
            &&& steps.len() <= 3
            &&& leads(roots[r], steps)
            &&& is_holding(key_at(roots[r], steps).start, key_at(roots[r], steps).stop)
            &&& users_in(roots, n)[k] == label_text(way(roots[r], Seq::empty(), steps))
        }),
    decreases n,
{
    let less = users_in(roots, (n - 1) as nat);
    if k < less.len() {
        let found = lemma_root_of(roots, (n - 1) as nat, k);
        assert(users_in(roots, n)[k] == less[k]);
        found
    } else {
        let steps = lemma_steps_to(roots[n - 1], Seq::empty(), MAX_DEPTH as nat, k - less.len());
        (n - 1, steps)
    }
}

proof fn lemma_steps_to(key: ConsentKey, path: Seq<char>, depth: nat, k: int) -> (steps: Seq<int>)
    requires
        0 <= k < users_at(key, path, depth).len(),
    ensures
        steps.len() <= depth,
        leads(key, steps),
        is_holding(key_at(key, steps).start, key_at(key, steps).stop),
        users_at(key, path, depth)[k] == label_text(way(key, path, steps)),
    decreases depth, 0nat,
{
    let own: int = if is_holding(key.start, key.stop) {
        1
    } else {
        0
    };
    if k < own {
        Seq::empty()
    } else {
        let (i, rest) = lemma_steps_below(
            key.subkeys@,
            path,
            (depth - 1) as nat,
            key.subkeys@.len(),
            k - own,
        );
        let steps = seq![i] + rest;
        assert(steps.skip(1) =~= rest);
        let next = key.subkeys@[i];
        assert(child_path(path, next.name@) =~= if path.len() == 0 {
            next.name@
        } else {
            path + seq!['\\'] + next.name@
        });
        steps
    }
}

proof fn lemma_steps_below(keys: Seq<ConsentKey>, path: Seq<char>, depth: nat, n: nat, k: int) -> (r: (
    int,
    Seq<int>,
))
    requires
        n <= keys.len(),
        0 <= k < users_below(keys, path, depth, n).len(),
    ensures
        0 <= r.0 < n,
        r.1.len() <= depth,
        leads(keys[r.0], r.1),
        is_holding(key_at(keys[r.0], r.1).start, key_at(keys[r.0], r.1).stop),
        users_below(keys, path, depth, n)[k] == label_text(
            way(keys[r.0], child_path(path, keys[r.0].name@), r.1),
        ),
    decreases depth, n + 1,
{
    let less = users_below(keys, path, depth, (n - 1) as nat);
    if k < less.len() {
        assert(users_below(keys, path, depth, n)[k] == less[k]);
        lemma_steps_below(keys, path, depth, (n - 1) as nat, k)
    } else {
        let steps = lemma_steps_to(
            keys[n - 1],
            child_path(path, keys[n - 1].name@),
            depth,
            k - less.len(),
        );
        (n - 1, steps)
    }
}

/// What is found over several roots is what is found in each, one after the other: nothing is lost and
/// nothing comes twice.
pub proof fn law_roots_are_read_one_after_the_other(a: Seq<ConsentKey>, b: Seq<ConsentKey>)
    ensures
        users_in(a + b, (a + b).len()) == users_in(a, a.len()) + users_in(b, b.len()),
        b.len() == 0 ==> users_in(b, b.len()).len() == 0,
        b.len() == 1 ==> users_in(b, b.len()) == users_at(b[0], Seq::empty(), 3),
{
    lemma_roots_apart(a, b, b.len());
    assert(b.len() == 1 ==> Seq::<Seq<char>>::empty() + users_at(b[0], Seq::empty(), 3) =~= users_at(
        b[0],
        Seq::empty(),
        3,
    ));
    if b.len() == 1 {
        assert(users_in(b, 0) =~= Seq::empty());
    }
}

proof fn lemma_roots_apart(a: Seq<ConsentKey>, b: Seq<ConsentKey>, n: nat)
    requires
        n <= b.len(),
    ensures
        users_in(a + b, a.len() + n) == users_in(a, a.len()) + users_in(b, n),
    decreases n,
{
    if n == 0 {
        lemma_first_roots(a, b, a.len());
        assert(users_in(a, a.len()) + users_in(b, 0) =~= users_in(a, a.len()));
    } else {
        lemma_roots_apart(a, b, (n - 1) as nat);
        assert((a + b)[a.len() + n - 1] == b[n - 1]);
        assert(users_in(a + b, a.len() + n) =~= users_in(a, a.len()) + users_in(b, n));
    }
}

proof fn lemma_first_roots(a: Seq<ConsentKey>, b: Seq<ConsentKey>, n: nat)
    requires
        n <= a.len(),
    ensures
        users_in(a + b, n) == users_in(a, n),
    decreases n,
{
    if n > 0 {
        lemma_first_roots(a, b, (n - 1) as nat);
        assert((a + b)[n - 1] == a[n - 1]);
    }
}

/// A key's own name comes before those below it, and those below come in the order of their keys, each key
/// with all that is below it before the next.
pub proof fn law_a_key_comes_before_those_below(key: ConsentKey, path: Seq<char>, depth: nat, i: int)
    ensures
        users_at(key, path, 0) == (if is_holding(key.start, key.stop) {
            seq![label_text(path)]
        } else {
            Seq::empty()
        }),
        users_at(key, path, depth + 1) == users_at(key, path, 0) + users_below(
            key.subkeys@,
            path,
            depth,
            key.subkeys@.len(),
        ),
        users_below(key.subkeys@, path, depth, 0).len() == 0,
        0 <= i < key.subkeys@.len() ==> users_below(key.subkeys@, path, depth, (i + 1) as nat)
            == users_below(key.subkeys@, path, depth, i as nat) + users_at(
            key.subkeys@[i],
            child_path(path, key.subkeys@[i].name@),
            depth,
        ),
{
}

/// An app is told by its path with the backslashes put back that the store writes as `#`, and without the
/// store's prefix for desktop apps. Every other character stays as it is.
pub proof fn law_an_app_is_told_by_its_path(path: Seq<char>, i: int)
    ensures
        label_text("NonPackaged\\"@ + path) == label_text(path),
        (forall|rest: Seq<char>| path != #[trigger] ("NonPackaged\\"@ + rest)) ==> {
            &&& label_text(path).len() == path.len()
            &&& 0 <= i < path.len() ==> label_text(path)[i] == (if path[i] == '#' {
                '\\'
            } else {
                path[i]
            })
        },
{
    reveal_strlit("NonPackaged\\");
    text::law_prefixes_are_taken_off(path, "NonPackaged\\"@);
}

} // verus!
