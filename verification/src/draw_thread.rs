//! The registry of live status entries and its lifecycle protocol.
//!
//! A `DrawThread` holds the ordered list of live entries, the wrapping
//! id allocator, the hide/show suppression counter, and the generation
//! counter that starts and cooperatively stops the single background
//! render worker. All terminal I/O, locking and thread spawning happen
//! outside this crate; the functions here are the decisions that the
//! surrounding shell executes while it holds the registry lock.

use vstd::prelude::*;

use crate::size::ConsoleSize;

verus! {

/// The capability a producer registers: given the terminal size, produce
/// the text of its status line. Implementations live outside this crate
/// and are only ever invoked by the shell, outside the registry lock, so
/// one must be safe to call from the worker thread while its owner
/// concurrently releases its guard; empty text is a valid "nothing to
/// show this tick" result.
pub trait DrawThreadRenderer: Send + Sync {
    fn render(&self, data: &ConsoleSize) -> String;
}

/// Token handed back by `add_entry`. Releasing it (handing it to
/// `finish_entry`) removes the entry it names from the registry; the
/// shell around this crate does so exactly once, from the guard's drop
/// path.
#[derive(Debug)]
pub struct DrawThreadGuard(pub u16);

/// One live status entry: a unique id paired with the owned handle to
/// the capability that renders the entry's text each tick.
#[derive(Clone)]
pub struct InternalEntry<R> {
    pub id: u16,
    pub renderer: R,
}

/// The lock-protected registry state.
pub struct InnerState<R> {
    /// Generation counter: the sole stop signal for a background worker.
    /// A worker is started tagged with the then-current value; once the
    /// registry's value moves past it, the worker exits on its next check.
    pub drawer_id: usize,
    /// Reference-counted suppression: zero means the frame may be shown.
    pub hide_count: usize,
    /// True iff a background worker is currently permitted to run.
    pub has_draw_thread: bool,
    /// Next id to allocate; wraps from `u16::MAX` back to zero.
    pub next_entry_id: u16,
    /// Live entries, in insertion order — the top-to-bottom stacking
    /// order of the rendered frame.
    pub entries: Vec<InternalEntry<R>>,
}

/// The id allocator's successor function: wraps at the top of the id
/// space. If more than `u16::MAX + 1` entries are simultaneously live a
/// fresh id can collide with a live one — a documented limitation of the
/// protocol, tolerated rather than defended against.
pub open spec fn wrap_inc(id: u16) -> u16 {
    if id == u16::MAX {
        0
    } else {
        (id + 1) as u16
    }
}

/// Index of the first occurrence of `id` in `ids`, or `-1` when absent.
pub open spec fn find_first(ids: Seq<u16>, id: u16) -> int
    decreases ids.len(),
{
    if ids.len() == 0 {
        -1
    } else if ids.first() == id {
        0
    } else {
        let rest = find_first(ids.drop_first(), id);
        if rest < 0 {
            -1
        } else {
            rest + 1
        }
    }
}

/// `find_first` finds exactly the first occurrence: a non-negative
/// result is an index of `id` with no earlier occurrence, and a negative
/// result means `id` does not occur at all.
pub proof fn lemma_find_first(ids: Seq<u16>, id: u16)
    ensures
        ids.contains(id) <==> find_first(ids, id) >= 0,
        find_first(ids, id) >= 0 ==> {
            &&& 0 <= find_first(ids, id) < ids.len()
            &&& ids[find_first(ids, id)] == id
            &&& forall|j: int| 0 <= j < find_first(ids, id) ==> ids[j] != id
        },
    decreases ids.len(),
{
    if ids.len() == 0 {
        assert(!ids.contains(id)) by {
            assert(forall|i: int| 0 <= i < ids.len() ==> ids[i] != id);
        }
    } else if ids.first() == id {
        assert(ids[0] == id);
    } else {
        let rest = ids.drop_first();
        lemma_find_first(rest, id);
        assert(forall|j: int| 0 <= j < rest.len() ==> rest[j] == ids[j + 1]);
        if find_first(rest, id) >= 0 {
            let f = find_first(rest, id);
            assert(ids[f + 1] == rest[f]);
            assert(ids.contains(id));
            assert forall|j: int| 0 <= j < f + 1 implies ids[j] != id by {
                if j == 0 {
                } else {
                    assert(ids[j] == rest[j - 1]);
                }
            }
        } else {
            assert(!rest.contains(id));
            assert forall|i: int| 0 <= i < ids.len() implies ids[i] != id by {
                if i > 0 {
                    assert(ids[i] == rest[i - 1]);
                    assert(!rest.contains(id) ==> rest[i - 1] != id);
                }
            }
            assert(!ids.contains(id));
        }
    }
}

impl<R> InnerState<R> {
    /// The ids of the live entries, in stacking order.
    pub open spec fn entry_ids(self) -> Seq<u16> {
        self.entries@.map_values(|e: InternalEntry<R>| e.id)
    }

    /// No two live entries share an id. Holds throughout ordinary use;
    /// only the degenerate wraparound case documented at `wrap_inc` can
    /// break it.
    pub open spec fn ids_unique(self) -> bool {
        forall|i: int, j: int|
            0 <= i < j < self.entry_ids().len() ==> self.entry_ids()[i] != self.entry_ids()[j]
    }

    /// Whether a worker tagged `drawer_id` must stop: its generation is
    /// no longer the registry's current one, or no entry is left to draw.
    pub open spec fn should_exit_spec(self, drawer_id: usize) -> bool {
        self.drawer_id != drawer_id || self.entries@.len() == 0
    }

    /// The frame is currently on screen: a worker is permitted to run
    /// and no caller holds an outstanding `hide`.
    pub open spec fn is_visible(self) -> bool {
        self.has_draw_thread && self.hide_count == 0
    }

    /// The stop check a worker runs on every iteration while holding the
    /// registry lock, both before snapshotting entries and again before
    /// committing a rendered frame.
    pub fn should_exit_draw_thread(&self, drawer_id: usize) -> (r: bool)
        ensures
            r == self.should_exit_spec(drawer_id),
    {
        self.drawer_id != drawer_id || self.entries.is_empty()
    }

    /// What a worker tagged `drawer_id` does at the top of an iteration,
    /// under the registry lock: stop, skip the frame because the display
    /// is suppressed, or render. When the answer is `Render`, the texts
    /// to draw are those of exactly the entries in `self.entries`, in
    /// order — the shell snapshots them, releases the lock, and only then
    /// invokes the renderers, so a renderer's own internal lock can never
    /// form a cycle with the registry lock.
    pub fn tick_begin(&self, drawer_id: usize) -> (r: TickBegin)
        ensures
            r == self.tick_begin_spec(drawer_id),
    {
        if self.should_exit_draw_thread(drawer_id) {
            TickBegin::Exit
        } else if self.hide_count > 0 {
            TickBegin::Skip
        } else {
            TickBegin::Render
        }
    }

    /// The decision `tick_begin` returns.
    pub open spec fn tick_begin_spec(self, drawer_id: usize) -> TickBegin {
        if self.should_exit_spec(drawer_id) {
            TickBegin::Exit
        } else if self.hide_count > 0 {
            TickBegin::Skip
        } else {
            TickBegin::Render
        }
    }
}

/// A worker's decision at the top of one iteration.
#[derive(Clone, Copy, Debug, PartialEq, Eq, Structural)]
pub enum TickBegin {
    /// Stop: the generation moved on or no entries are left.
    Exit,
    /// Keep running but draw nothing this tick: the display is hidden.
    Skip,
    /// Snapshot the entries and render a frame.
    Render,
}

/// The draw-thread service: the registry state together with the cached
/// answer of the environment probe (interactive terminal with a non-zero
/// size). One such value exists per process, behind the shell's lock.
pub struct DrawThread<R> {
    pub state: InnerState<R>,
    /// Cached for the process lifetime: the diagnostic stream is an
    /// interactive terminal that reported a non-zero size.
    pub env_supported: bool,
}

impl<R> DrawThread<R> {
    /// Drawing is supported right now: the cached environment probe
    /// passed and informational logging is currently enabled. The log
    /// level is passed in fresh on every call since it may change while
    /// the process runs.
    pub open spec fn supported_spec(self, info_log_enabled: bool) -> bool {
        info_log_enabled && self.env_supported
    }

    /// A fresh registry: no entries, no worker, nothing hidden.
    pub fn new(env_supported: bool) -> (r: DrawThread<R>)
        ensures
            r.state.drawer_id == 0,
            r.state.hide_count == 0,
            !r.state.has_draw_thread,
            r.state.next_entry_id == 0,
            r.state.entries@.len() == 0,
            r.state.ids_unique(),
            r.env_supported == env_supported,
    {
        DrawThread {
            state: InnerState {
                drawer_id: 0,
                hide_count: 0,
                has_draw_thread: false,
                next_entry_id: 0,
                entries: Vec::new(),
            },
            env_supported,
        }
    }

    /// Is using the draw thread supported in this environment, at the
    /// current log level?
    pub fn is_supported(&self, info_log_enabled: bool) -> (r: bool)
        ensures
            r == self.supported_spec(info_log_enabled),
    {
        info_log_enabled && self.env_supported
    }

    /// Adds a renderer to the registry and returns the guard that keeps
    /// it alive. The entry is tracked whether or not the environment
    /// supports drawing; a worker is started — signalled by the returned
    /// generation value — only when none is running and drawing is
    /// supported, so in an unsupported environment registration is inert
    /// bookkeeping and nothing is ever written to the display.
    pub fn add_entry(&mut self, renderer: R, info_log_enabled: bool) -> (r: (
        DrawThreadGuard,
        Option<usize>,
    ))
        requires
            old(self).state.drawer_id < usize::MAX,
        ensures
            r.0.0 == old(self).state.next_entry_id,
            final(self).state.entries@ == old(self).state.entries@.push(
                (InternalEntry { id: old(self).state.next_entry_id, renderer }),
            ),
            final(self).state.entry_ids() == old(self).state.entry_ids().push(
                old(self).state.next_entry_id,
            ),
            final(self).state.next_entry_id == wrap_inc(old(self).state.next_entry_id),
            final(self).state.hide_count == old(self).state.hide_count,
            final(self).env_supported == old(self).env_supported,
            old(self).state.drawer_id <= final(self).state.drawer_id,
            !old(self).state.has_draw_thread && old(self).supported_spec(info_log_enabled) ==> {
                &&& r.1 == Some((old(self).state.drawer_id + 1) as usize)
                &&& final(self).state.drawer_id == old(self).state.drawer_id + 1
                &&& final(self).state.has_draw_thread
            },
            !(!old(self).state.has_draw_thread && old(self).supported_spec(info_log_enabled))
                ==> {
                &&& r.1 is None
                &&& final(self).state.drawer_id == old(self).state.drawer_id
                &&& final(self).state.has_draw_thread == old(self).state.has_draw_thread
            },
            old(self).state.ids_unique() && !old(self).state.entry_ids().contains(
                old(self).state.next_entry_id,
            ) ==> final(self).state.ids_unique(),
    {
        let id = self.state.next_entry_id;
        self.state.entries.push(InternalEntry { id, renderer });
        if self.state.next_entry_id == u16::MAX {
            self.state.next_entry_id = 0;
        } else {
            self.state.next_entry_id = self.state.next_entry_id + 1;
        }
        let start = self.maybe_start_draw_thread(info_log_enabled);
        proof {
            let ids0 = old(self).state.entry_ids();
            let ids1 = self.state.entry_ids();
            assert(ids1 =~= ids0.push(id));
            if old(self).state.ids_unique() && !ids0.contains(id) {
                assert forall|i: int, j: int| 0 <= i < j < ids1.len() implies ids1[i]
                    != ids1[j] by {
                    if j == ids1.len() - 1 {
                        assert(ids1[j] == id);
                        assert(ids1[i] == ids0[i]);
                        assert(!ids0.contains(id) ==> ids0[i] != id);
                    }
                }
            }
        }
        (DrawThreadGuard(id), start)
    }

    /// Starts a background worker when none is running, at least one
    /// entry is live, and the environment supports drawing. Bumps the
    /// generation and returns the new value for the shell to tag the
    /// worker with; returns `None` when no worker must be started.
    fn maybe_start_draw_thread(&mut self, info_log_enabled: bool) -> (r: Option<usize>)
        requires
            old(self).state.drawer_id < usize::MAX,
        ensures
            final(self).state.entries == old(self).state.entries,
            final(self).state.hide_count == old(self).state.hide_count,
            final(self).state.next_entry_id == old(self).state.next_entry_id,
            final(self).env_supported == old(self).env_supported,
            old(self).state.drawer_id <= final(self).state.drawer_id,
            !old(self).state.has_draw_thread && old(self).state.entries@.len() > 0 && old(self).supported_spec(info_log_enabled) ==> {
                &&& r == Some((old(self).state.drawer_id + 1) as usize)
                &&& final(self).state.drawer_id == old(self).state.drawer_id + 1
                &&& final(self).state.has_draw_thread
            },
            !(!old(self).state.has_draw_thread && old(self).state.entries@.len() > 0 && old(self).supported_spec(info_log_enabled)) ==> {
                &&& r is None
                &&& final(self).state.drawer_id == old(self).state.drawer_id
                &&& final(self).state.has_draw_thread == old(self).state.has_draw_thread
            },
    {
        if self.state.has_draw_thread || self.state.entries.is_empty() || !self.is_supported(
            info_log_enabled,
        ) {
            return None;
        }
        self.state.drawer_id = self.state.drawer_id + 1;
        self.state.has_draw_thread = true;
        Some(self.state.drawer_id)
    }

    /// Suppresses the frame. Returns whether the frame was visible until
    /// now; the caller must then clear the display region once, on its
    /// own thread, so the frame disappears immediately instead of
    /// whenever the worker is next scheduled.
    pub fn hide_frame(&mut self) -> (r: bool)
        requires
            old(self).state.hide_count < usize::MAX,
        ensures
            r == old(self).state.is_visible(),
            final(self).state.hide_count as nat == hide_step(old(self).state.hide_count as nat),
            final(self).state.drawer_id == old(self).state.drawer_id,
            final(self).state.has_draw_thread == old(self).state.has_draw_thread,
            final(self).state.next_entry_id == old(self).state.next_entry_id,
            final(self).state.entries == old(self).state.entries,
            final(self).env_supported == old(self).env_supported,
    {
        let is_showing = self.state.has_draw_thread && self.state.hide_count == 0;
        self.state.hide_count = self.state.hide_count + 1;
        is_showing
    }

    /// Lifts one suppression. Calling it more often than `hide` is safe:
    /// the counter floors at zero and visibility resumes only once every
    /// outstanding `hide` has a matching `show`.
    pub fn show(&mut self)
        ensures
            final(self).state.hide_count as nat == show_step(old(self).state.hide_count as nat),
            final(self).state.drawer_id == old(self).state.drawer_id,
            final(self).state.has_draw_thread == old(self).state.has_draw_thread,
            final(self).state.next_entry_id == old(self).state.next_entry_id,
            final(self).state.entries == old(self).state.entries,
            final(self).env_supported == old(self).env_supported,
    {
        if self.state.hide_count > 0 {
            self.state.hide_count = self.state.hide_count - 1;
        }
    }

    /// Removes the entry the released guard named: the first live entry
    /// carrying `entry_id`, a no-op when none does (a guard may outlive
    /// the registry's awareness of its entry, and a double release must
    /// never remove an unrelated entry). When the removal empties the
    /// list while a worker is marked active, the generation is bumped —
    /// stopping that worker at its next check, before any further frame
    /// is written for its generation — and `true` comes back: the caller
    /// must then clear the display region exactly once.
    pub fn finish_entry(&mut self, entry_id: u16) -> (r: bool)
        requires
            old(self).state.drawer_id < usize::MAX,
        ensures
            r == (old(self).state.entry_ids().contains(entry_id) && old(self).state.entries@.len() == 1 && old(self).state.has_draw_thread),
            !old(self).state.entry_ids().contains(entry_id) ==> *final(self) == *old(self),
            old(self).state.entry_ids().contains(entry_id) ==> {
                &&& final(self).state.entries@ == old(self).state.entries@.remove(
                    find_first(old(self).state.entry_ids(), entry_id),
                )
                &&& final(self).state.entry_ids() == old(self).state.entry_ids().remove(
                    find_first(old(self).state.entry_ids(), entry_id),
                )
            },
            final(self).state.hide_count == old(self).state.hide_count,
            final(self).state.next_entry_id == old(self).state.next_entry_id,
            final(self).env_supported == old(self).env_supported,
            r ==> final(self).state.drawer_id == old(self).state.drawer_id + 1 && !final(self).state.has_draw_thread,
            !r ==> final(self).state.drawer_id == old(self).state.drawer_id && final(self).state.has_draw_thread == old(self).state.has_draw_thread,
            old(self).state.drawer_id <= final(self).state.drawer_id,
            old(self).state.ids_unique() ==> final(self).state.ids_unique() && !final(self).state.entry_ids().contains(entry_id),
    {
        let ghost ids0 = old(self).state.entry_ids();
        proof {
            lemma_find_first(ids0, entry_id);
        }
        let n = self.state.entries.len();
        let mut i: usize = 0;
        while i < n && self.state.entries[i].id != entry_id
            invariant
                0 <= i <= n,
                n == self.state.entries@.len(),
                self == old(self),
                forall|j: int| 0 <= j < i ==> self.state.entry_ids()[j] != entry_id,
            decreases n - i,
        {
            assert(self.state.entry_ids()[i as int] == self.state.entries@[i as int].id);
            i += 1;
        }
        if i < n {
            proof {
                assert(ids0[i as int] == self.state.entries@[i as int].id);
                assert(ids0.contains(entry_id));
                let f = find_first(ids0, entry_id);
                assert(f == i) by {
                    if f < i {
                        assert(ids0[f] == entry_id);
                    }
                    if f > i {
                        assert(ids0[i as int] != entry_id);
                    }
                };
            }
            self.state.entries.remove(i);
            proof {
                let f = i as int;
                let ids1 = self.state.entry_ids();
                assert(ids1 =~= ids0.remove(f));
                ids0.remove_ensures(f);
                if old(self).state.ids_unique() {
                    assert forall|p: int, q: int| 0 <= p < q < ids1.len() implies ids1[p]
                        != ids1[q] by {
                        let p0: int = if p < f {
                            p
                        } else {
                            p + 1
                        };
                        let q0: int = if q < f {
                            q
                        } else {
                            q + 1
                        };
                        assert(ids1[p] == ids0[p0]);
                        assert(ids1[q] == ids0[q0]);
                    }
                    assert forall|p: int| 0 <= p < ids1.len() implies ids1[p] != entry_id by {
                        let p0: int = if p < f {
                            p
                        } else {
                            p + 1
                        };
                        assert(ids1[p] == ids0[p0]);
                        if p0 < f {
                            assert(ids0[p0] != entry_id);
                        } else {
                            assert(ids0[f] == entry_id);
                            assert(p0 != f);
                        }
                    }
                    assert(!ids1.contains(entry_id)) by {
                        if ids1.contains(entry_id) {
                            let w = choose|w: int|
                                0 <= w < ids1.len() && ids1[w] == entry_id;
                            assert(ids1[w] != entry_id);
                        }
                    }
                }
            }
            if self.state.entries.is_empty() && self.state.has_draw_thread {
                self.state.drawer_id = self.state.drawer_id + 1;
                self.state.has_draw_thread = false;
                true
            } else {
                false
            }
        } else {
            proof {
                assert(!ids0.contains(entry_id)) by {
                    if ids0.contains(entry_id) {
                        let w = choose|w: int| 0 <= w < ids0.len() && ids0[w] == entry_id;
                        assert(ids0[w] != entry_id);
                    }
                };
            }
            false
        }
    }
}

/// One `hide` call's effect on the suppression counter.
pub open spec fn hide_step(c: nat) -> nat {
    c + 1
}

/// One `show` call's effect on the suppression counter: decrement,
/// floored at zero.
pub open spec fn show_step(c: nat) -> nat {
    if c > 0 {
        (c - 1) as nat
    } else {
        0
    }
}

/// The counter after `k` successive `hide` calls.
pub open spec fn hide_n(c: nat, k: nat) -> nat
    decreases k,
{
    if k == 0 {
        c
    } else {
        hide_n(hide_step(c), (k - 1) as nat)
    }
}

/// The counter after `k` successive `show` calls.
pub open spec fn show_n(c: nat, k: nat) -> nat
    decreases k,
{
    if k == 0 {
        c
    } else {
        show_n(show_step(c), (k - 1) as nat)
    }
}

/// Peeling one `show` off the end instead of the front.
proof fn lemma_show_n_last(c: nat, k: nat)
    ensures
        show_n(c, k + 1) == show_step(show_n(c, k)),
    decreases k,
{
    assert(show_n(c, k + 1) == show_n(show_step(c), k));
    if k > 0 {
        lemma_show_n_last(show_step(c), (k - 1) as nat);
        assert(show_n(show_step(c), k) == show_step(show_n(show_step(c), (k - 1) as nat)));
        assert(show_n(c, k) == show_n(show_step(c), (k - 1) as nat));
    } else {
        assert(show_n(show_step(c), 0) == show_step(c));
        assert(show_n(c, 0) == c);
    }
}

/// `hide` invoked `k` times then `show` invoked `k` times leaves the
/// suppression counter — and with it visibility, which `hide` and `show`
/// touch through nothing else — exactly as if neither had been called.
pub proof fn lemma_hide_show_balance(c: nat, k: nat)
    ensures
        show_n(hide_n(c, k), k) == c,
    decreases k,
{
    if k > 0 {
        lemma_hide_show_balance((c + 1) as nat, (k - 1) as nat);
        lemma_show_n_last(hide_n((c + 1) as nat, (k - 1) as nat), (k - 1) as nat);
    }
}

/// `show` invoked more often than `hide` has no effect beyond the floor
/// at zero: once the counter is zero, further `show` calls keep it there.
pub proof fn lemma_show_floor(k: nat)
    ensures
        show_n(0, k) == 0,
    decreases k,
{
    if k > 0 {
        lemma_show_floor((k - 1) as nat);
    }
}

/// At most one worker can ever pass the locked commit check in a given
/// registry state: two generations that both pass are the same
/// generation, so two workers never write frames concurrently.
pub proof fn lemma_single_committer<R>(s: InnerState<R>, g1: usize, g2: usize)
    requires
        !s.should_exit_spec(g1),
        !s.should_exit_spec(g2),
    ensures
        g1 == g2,
{
}

/// A generation the registry has moved past never passes the commit
/// check again. Every operation here only ever increases `drawer_id`, so
/// once the last entry's release bumps the generation, no further frame
/// is written for the worker that was running — its next check exits.
pub proof fn lemma_stale_generation_exits<R>(s: InnerState<R>, g: usize)
    requires
        g < s.drawer_id,
    ensures
        s.should_exit_spec(g),
{
}

} // verus!
