//! Learning objectives for the opening of Pokemon Emerald, completed from
//! fields of the emulator's debug summary text.

use vstd::prelude::*;
use crate::text::{
    is_space, is_space_exec, parse_unsigned, parse_unsigned_exec, chars_of, dec_text, push_dec,
    push_str, string_from_chars,
};

verus! {

/// The game facts an objective can depend on, as read from a debug summary.
/// A field is `None` when the summary does not state it.
#[derive(Debug, Clone, Copy, PartialEq, Eq)]
pub struct EduSnapshot {
    pub frame: u64,
    pub layout_id: Option<u16>,
    pub party_count: Option<u8>,
    pub party_species: Option<u16>,
    pub starter_var: Option<u16>,
    pub pokemon_get: Option<bool>,
    pub rescued_birch: Option<bool>,
}

/// One objective, and the frame at which it was completed.
#[derive(Debug, Clone, Copy, PartialEq, Eq)]
pub struct EduObjective {
    pub id: &'static str,
    pub title: &'static str,
    pub prompt: &'static str,
    pub completed_at: Option<u64>,
}

/// What completes an objective.
#[derive(Debug, Clone, Copy, PartialEq, Eq, Structural)]
pub enum ObjectiveKind {
    MovingTruck,
    Littleroot,
    Route101,
    RescueBirch,
    StarterAcquired,
}

/// Whether `snapshot` shows the goal of an objective of `kind` reached.
pub open spec fn objective_met(kind: ObjectiveKind, snapshot: EduSnapshot) -> bool {
    match kind {
        ObjectiveKind::MovingTruck => snapshot.layout_id == Some(0x00edu16),
        ObjectiveKind::Littleroot => snapshot.layout_id == Some(0x000au16),
        ObjectiveKind::Route101 => snapshot.layout_id == Some(0x0011u16),
        ObjectiveKind::RescueBirch => snapshot.rescued_birch == Some(true),
        ObjectiveKind::StarterAcquired => {
            &&& (match snapshot.party_count {
                Some(c) => c >= 1,
                None => false,
            })
            &&& (match snapshot.party_species {
                Some(s) => s != 0,
                None => false,
            })
            &&& (match snapshot.starter_var {
                Some(v) => v > 0,
                None => false,
            })
        },
    }
}

pub fn objective_met_exec(kind: ObjectiveKind, snapshot: &EduSnapshot) -> (r: bool)
    ensures
        r == objective_met(kind, *snapshot),
{
    match kind {
        ObjectiveKind::MovingTruck => snapshot.layout_id == Some(0x00edu16),
        ObjectiveKind::Littleroot => snapshot.layout_id == Some(0x000au16),
        ObjectiveKind::Route101 => snapshot.layout_id == Some(0x0011u16),
        ObjectiveKind::RescueBirch => snapshot.rescued_birch == Some(true),
        ObjectiveKind::StarterAcquired => {
            let count_ok = match snapshot.party_count {
                Some(c) => c >= 1,
                None => false,
            };
            let species_ok = match snapshot.party_species {
                Some(s) => s != 0,
                None => false,
            };
            let starter_ok = match snapshot.starter_var {
                Some(v) => v > 0,
                None => false,
            };
            count_ok && species_ok && starter_ok
        },
    }
}

/// The indices, in order, among the first `n` objectives, of those still
/// open whose goal `snapshot` shows reached.
pub open spec fn newly_met(
    kinds: Seq<ObjectiveKind>,
    objectives: Seq<EduObjective>,
    snapshot: EduSnapshot,
    n: nat,
) -> Seq<int>
    decreases n,
{
    if n == 0 {
        Seq::empty()
    } else {
        let prev = newly_met(kinds, objectives, snapshot, (n - 1) as nat);
        let i = n - 1;
        if objectives[i].completed_at is None && objective_met(kinds[i], snapshot) {
            prev.push(i)
        } else {
            prev
        }
    }
}

/// The objectives after `snapshot`: the open ones whose goal it shows
/// reached are completed at its frame; the others are unchanged.
pub open spec fn after_update(
    kinds: Seq<ObjectiveKind>,
    objectives: Seq<EduObjective>,
    snapshot: EduSnapshot,
) -> Seq<EduObjective> {
    Seq::new(
        objectives.len(),
        |i: int|
            if objectives[i].completed_at is None && objective_met(kinds[i], snapshot) {
                EduObjective { completed_at: Some(snapshot.frame), ..objectives[i] }
            } else {
                objectives[i]
            },
    )
}

/// What completes the objective with id `id`, for the ids the tracker knows.
pub open spec fn id_kind(id: Seq<char>) -> Option<ObjectiveKind> {
    if id == "moving_truck"@ {
        Some(ObjectiveKind::MovingTruck)
    } else if id == "littleroot"@ {
        Some(ObjectiveKind::Littleroot)
    } else if id == "route101"@ {
        Some(ObjectiveKind::Route101)
    } else if id == "rescue_birch"@ {
        Some(ObjectiveKind::RescueBirch)
    } else if id == "starter_acquired"@ {
        Some(ObjectiveKind::StarterAcquired)
    } else {
        None
    }
}

/// The objective list of the Emerald opening, each with what completes it.
pub struct EduTracker {
    objectives: Vec<EduObjective>,
    kinds: Vec<ObjectiveKind>,
}

impl EduTracker {
    /// The objectives, in order.
    pub closed spec fn objectives_seq(&self) -> Seq<EduObjective> {
        self.objectives@
    }

    /// What completes each objective, in order.
    pub closed spec fn kinds_seq(&self) -> Seq<ObjectiveKind> {
        self.kinds@
    }

    /// The lists are as long as each other, and what completes each
    /// objective is what its id names.
    pub open spec fn wf(&self) -> bool {
        &&& self.objectives_seq().len() == self.kinds_seq().len()
        &&& forall|i: int|
            0 <= i < self.kinds_seq().len() ==> id_kind(#[trigger] self.objectives_seq()[i].id@)
                == Some(self.kinds_seq()[i])
    }

    /// The five objectives of the Emerald opening, all open.
    pub fn emerald_onboarding() -> (t: EduTracker)
        ensures
            t.wf(),
            t.objectives_seq().len() == 5,
            t.kinds_seq() == seq![
                ObjectiveKind::MovingTruck,
                ObjectiveKind::Littleroot,
                ObjectiveKind::Route101,
                ObjectiveKind::RescueBirch,
                ObjectiveKind::StarterAcquired,
            ],
            forall|i: int| 0 <= i < 5 ==> (#[trigger] t.objectives_seq()[i]).completed_at is None,
            forall|i: int| 0 <= i < 5 ==> #[trigger] t.objectives_seq()[i] == emerald_objective(i),
    {
        let objectives = vec![
            EduObjective {
                id: "moving_truck",
                title: "Wake up in the moving truck",
                prompt: "Orientation: notice where the story starts before rushing inputs.",
                completed_at: None,
            },
            EduObjective {
                id: "littleroot",
                title: "Reach Littleroot Town",
                prompt: "Map-reading: identify the home town and the exits from it.",
                completed_at: None,
            },
            EduObjective {
                id: "route101",
                title: "Reach Route 101",
                prompt: "Navigation puzzle: leave town and find the north route.",
                completed_at: None,
            },
            EduObjective {
                id: "rescue_birch",
                title: "Rescue Professor Birch",
                prompt: "Causal reasoning: the emergency changes the available choices.",
                completed_at: None,
            },
            EduObjective {
                id: "starter_acquired",
                title: "Acquire a starter",
                prompt: "Decision reflection: compare starter type, tradeoffs, and next objective.",
                completed_at: None,
            },
        ];
        let kinds = vec![
            ObjectiveKind::MovingTruck,
            ObjectiveKind::Littleroot,
            ObjectiveKind::Route101,
            ObjectiveKind::RescueBirch,
            ObjectiveKind::StarterAcquired,
        ];
        let t = EduTracker { objectives, kinds };
        proof {
            reveal_strlit("moving_truck");
            reveal_strlit("littleroot");
            reveal_strlit("route101");
            reveal_strlit("rescue_birch");
            reveal_strlit("starter_acquired");
            assert(id_kind(t.objectives@[0].id@) == Some(ObjectiveKind::MovingTruck));
            assert("littleroot"@.len() != "moving_truck"@.len());
            assert(id_kind(t.objectives@[1].id@) == Some(ObjectiveKind::Littleroot));
            assert("route101"@.len() != "moving_truck"@.len());
            assert("route101"@.len() != "littleroot"@.len());
            assert(id_kind(t.objectives@[2].id@) == Some(ObjectiveKind::Route101));
            assert("rescue_birch"@[0] != "moving_truck"@[0]);
            assert("rescue_birch"@.len() != "littleroot"@.len());
            assert("rescue_birch"@.len() != "route101"@.len());
            assert(id_kind(t.objectives@[3].id@) == Some(ObjectiveKind::RescueBirch));
            assert("starter_acquired"@.len() != "moving_truck"@.len());
            assert("starter_acquired"@.len() != "littleroot"@.len());
            assert("starter_acquired"@.len() != "route101"@.len());
            assert("starter_acquired"@.len() != "rescue_birch"@.len());
            assert(id_kind(t.objectives@[4].id@) == Some(ObjectiveKind::StarterAcquired));
        }
        t
    }

    /// Completes, at the snapshot's frame, every open objective whose goal
    /// `snapshot` shows reached, and returns those objectives in order.
    pub fn update(&mut self, snapshot: &EduSnapshot) -> (r: Vec<&EduObjective>)
        requires
            old(self).wf(),
        ensures
            final(self).wf(),
            final(self).kinds_seq() == old(self).kinds_seq(),
            final(self).objectives_seq() == after_update(
                old(self).kinds_seq(),
                old(self).objectives_seq(),
                *snapshot,
            ),
            ({
                let idx = newly_met(
                    old(self).kinds_seq(),
                    old(self).objectives_seq(),
                    *snapshot,
                    old(self).objectives_seq().len(),
                );
                &&& r@.len() == idx.len()
                &&& forall|j: int|
                    0 <= j < idx.len() ==> *r@[j] == final(self).objectives_seq()[idx[j]]
            }),
    {
        let ghost kinds0 = self.kinds@;
        let ghost objs0 = self.objectives@;
        let n = self.objectives.len();
        let mut done_idx: Vec<usize> = Vec::new();
        let mut i: usize = 0;
        while i < n
            invariant
                n == objs0.len(),
                n == kinds0.len(),
                self.kinds@ == kinds0,
                i <= n,
                self.objectives@.len() == n,
                forall|k: int|
                    0 <= k < n ==> #[trigger] self.objectives@[k] == (if k < i {
                        after_update(kinds0, objs0, *snapshot)[k]
                    } else {
                        objs0[k]
                    }),
                done_idx@.len() == newly_met(kinds0, objs0, *snapshot, i as nat).len(),
                forall|j: int|
                    0 <= j < done_idx@.len() ==> done_idx@[j] == newly_met(
                        kinds0,
                        objs0,
                        *snapshot,
                        i as nat,
                    )[j] && done_idx@[j] < i,
            decreases n - i,
        {
            let o = self.objectives[i];
            if o.completed_at.is_none() && objective_met_exec(self.kinds[i], snapshot) {
                let done = EduObjective { completed_at: Some(snapshot.frame), ..o };
                self.objectives.set(i, done);
                done_idx.push(i);
            }
            i = i + 1;
        }
        proof {
            assert(self.objectives@ =~= after_update(kinds0, objs0, *snapshot));
            assert forall|k: int| 0 <= k < n implies #[trigger] self.objectives@[k].id
                == objs0[k].id by {}
        }
        let this: &EduTracker = self;
        let mut out: Vec<&EduObjective> = Vec::new();
        let mut j: usize = 0;
        while j < done_idx.len()
            invariant
                j <= done_idx@.len(),
                out@.len() == j,
                this.objectives@.len() == n,
                forall|k: int| 0 <= k < done_idx@.len() ==> done_idx@[k] < n,
                forall|k: int| 0 <= k < j ==> *out@[k] == this.objectives@[done_idx@[k] as int],
            decreases done_idx@.len() - j,
        {
            out.push(&this.objectives[done_idx[j]]);
            j = j + 1;
        }
        out
    }

    /// Reads a snapshot from `summary` at `frame` and applies it.
    pub fn update_from_summary(&mut self, summary: &str, frame: u64) -> (r: Vec<&EduObjective>)
        requires
            old(self).wf(),
        ensures
            final(self).wf(),
            final(self).kinds_seq() == old(self).kinds_seq(),
            final(self).objectives_seq() == after_update(
                old(self).kinds_seq(),
                old(self).objectives_seq(),
                spec_snapshot(summary@, frame),
            ),
            ({
                let idx = newly_met(
                    old(self).kinds_seq(),
                    old(self).objectives_seq(),
                    spec_snapshot(summary@, frame),
                    old(self).objectives_seq().len(),
                );
                &&& r@.len() == idx.len()
                &&& forall|j: int|
                    0 <= j < idx.len() ==> *r@[j] == final(self).objectives_seq()[idx[j]]
            }),
    {
        let snapshot = EduSnapshot::from_debug_summary(summary, frame);
        self.update(&snapshot)
    }

    /// The objectives, in order.
    pub fn objectives(&self) -> (r: &[EduObjective])
        ensures
            r@ == self.objectives_seq(),
    {
        self.objectives.as_slice()
    }
}

/// How many of `objs` are completed.
pub open spec fn completed_count(objs: Seq<EduObjective>) -> nat
    decreases objs.len(),
{
    if objs.len() == 0 {
        0
    } else {
        completed_count(objs.drop_last()) + if objs.last().completed_at is Some {
            1nat
        } else {
            0nat
        }
    }
}

/// The report line of one objective.
pub open spec fn objective_line(o: EduObjective) -> Seq<char> {
    "EDU objective="@ + o.id@ + match o.completed_at {
        Some(frame) => " status=complete frame="@ + dec_text(frame as nat, 0),
        None => " status=pending"@,
    } + " title=\""@ + o.title@ + "\" prompt=\""@ + o.prompt@ + "\"\n"@
}

/// The report lines of the first `n` objectives.
pub open spec fn objective_lines(objs: Seq<EduObjective>, n: nat) -> Seq<char>
    decreases n,
{
    if n == 0 {
        Seq::empty()
    } else {
        objective_lines(objs, (n - 1) as nat) + objective_line(objs[n - 1])
    }
}

/// The progress report: how many objectives are completed, then one line
/// per objective.
pub open spec fn summary_report(objs: Seq<EduObjective>) -> Seq<char> {
    "EDU summary: "@ + dec_text(completed_count(objs), 0) + "/"@ + dec_text(objs.len(), 0)
        + " objectives completed\n"@ + objective_lines(objs, objs.len())
}

impl EduTracker {
    /// The progress report, one line per objective after a count of the
    /// completed ones.
    pub fn summary_text(&self) -> (s: String)
        ensures
            s@ == summary_report(self.objectives_seq()),
    {
        let objs = self.objectives.as_slice();
        let mut count: u64 = 0;
        let mut k: usize = 0;
        while k < objs.len()
            invariant
                k <= objs@.len(),
                objs@ == self.objectives_seq(),
                count == completed_count(objs@.subrange(0, k as int)),
                count <= k,
            decreases objs@.len() - k,
        {
            assert(objs@.subrange(0, k as int) =~= objs@.subrange(0, k as int + 1).drop_last());
            if objs[k].completed_at.is_some() {
                count = count + 1;
            }
            k = k + 1;
        }
        assert(objs@.subrange(0, objs@.len() as int) =~= objs@);
        let mut out: Vec<char> = Vec::new();
        push_str(&mut out, "EDU summary: ");
        push_dec(&mut out, count, 0);
        push_str(&mut out, "/");
        push_dec(&mut out, objs.len() as u64, 0);
        push_str(&mut out, " objectives completed\n");
        let ghost head = out@;
        let mut k: usize = 0;
        while k < objs.len()
            invariant
                k <= objs@.len(),
                out@ == head + objective_lines(objs@, k as nat),
            decreases objs@.len() - k,
        {
            let o = &objs[k];
            let ghost before = out@;
            push_str(&mut out, "EDU objective=");
            push_str(&mut out, o.id);
            match o.completed_at {
                Some(frame) => {
                    push_str(&mut out, " status=complete frame=");
                    push_dec(&mut out, frame, 0);
                },
                None => {
                    push_str(&mut out, " status=pending");
                },
            }
            push_str(&mut out, " title=\"");
            push_str(&mut out, o.title);
            push_str(&mut out, "\" prompt=\"");
            push_str(&mut out, o.prompt);
            push_str(&mut out, "\"\n");
            assert(out@ =~= before + objective_line(objs@[k as int]));
            k = k + 1;
            assert(out@ =~= head + objective_lines(objs@, k as nat));
        }
        string_from_chars(&out)
    }
}

/// The `i`th objective of the Emerald opening, still open.
pub open spec fn emerald_objective(i: int) -> EduObjective {
    if i == 0 {
        EduObjective {
            id: "moving_truck",
            title: "Wake up in the moving truck",
            prompt: "Orientation: notice where the story starts before rushing inputs.",
            completed_at: None,
        }
    } else if i == 1 {
        EduObjective {
            id: "littleroot",
            title: "Reach Littleroot Town",
            prompt: "Map-reading: identify the home town and the exits from it.",
            completed_at: None,
        }
    } else if i == 2 {
        EduObjective {
            id: "route101",
            title: "Reach Route 101",
            prompt: "Navigation puzzle: leave town and find the north route.",
            completed_at: None,
        }
    } else if i == 3 {
        EduObjective {
            id: "rescue_birch",
            title: "Rescue Professor Birch",
            prompt: "Causal reasoning: the emergency changes the available choices.",
            completed_at: None,
        }
    } else {
        EduObjective {
            id: "starter_acquired",
            title: "Acquire a starter",
            prompt: "Decision reflection: compare starter type, tradeoffs, and next objective.",
            completed_at: None,
        }
    }
}

impl Default for EduTracker {
    fn default() -> (t: EduTracker)
        ensures
            t.wf(),
            t.objectives_seq().len() == 5,
            t.kinds_seq() == seq![
                ObjectiveKind::MovingTruck,
                ObjectiveKind::Littleroot,
                ObjectiveKind::Route101,
                ObjectiveKind::RescueBirch,
                ObjectiveKind::StarterAcquired,
            ],
            forall|i: int| 0 <= i < 5 ==> #[trigger] t.objectives_seq()[i] == emerald_objective(i),
    {
        EduTracker::emerald_onboarding()
    }
}

/// Trackers with the same objectives complete them the same way: what
/// completes each objective follows from its id, so an update, from a
/// snapshot or from the summary it is read from, does the same to both.
pub proof fn law_same_objectives_same_kinds(t1: EduTracker, t2: EduTracker)
    requires
        t1.wf(),
        t2.wf(),
        t1.objectives_seq() == t2.objectives_seq(),
    ensures
        t1.kinds_seq() == t2.kinds_seq(),
{
    assert forall|i: int| 0 <= i < t1.kinds_seq().len() implies t1.kinds_seq()[i]
        == t2.kinds_seq()[i] by {
        assert(id_kind(t1.objectives_seq()[i].id@) == Some(t1.kinds_seq()[i]));
        assert(id_kind(t2.objectives_seq()[i].id@) == Some(t2.kinds_seq()[i]));
    }
    assert(t1.kinds_seq() =~= t2.kinds_seq());
}

/// An objective, once completed, stays completed at the same frame, and a
/// snapshot applied twice completes nothing the second time.
pub proof fn law_objectives_complete_once(
    kinds: Seq<ObjectiveKind>,
    objectives: Seq<EduObjective>,
    snapshot: EduSnapshot,
)
    requires
        kinds.len() == objectives.len(),
    ensures
        forall|i: int|
            0 <= i < objectives.len() && objectives[i].completed_at is Some ==> after_update(
                kinds,
                objectives,
                snapshot,
            )[i] == objectives[i],
        newly_met(
            kinds,
            after_update(kinds, objectives, snapshot),
            snapshot,
            objectives.len(),
        ).len() == 0,
        after_update(kinds, after_update(kinds, objectives, snapshot), snapshot) == after_update(
            kinds,
            objectives,
            snapshot,
        ),
{
    let a = after_update(kinds, objectives, snapshot);
    lemma_newly_met_empty(kinds, a, snapshot, objectives.len());
    assert(after_update(kinds, a, snapshot) =~= a);
}

proof fn lemma_newly_met_empty(
    kinds: Seq<ObjectiveKind>,
    objectives: Seq<EduObjective>,
    snapshot: EduSnapshot,
    n: nat,
)
    requires
        n <= objectives.len(),
        forall|i: int|
            0 <= i < n && objectives[i].completed_at is None ==> !objective_met(
                kinds[i],
                snapshot,
            ),
    ensures
        newly_met(kinds, objectives, snapshot, n).len() == 0,
    decreases n,
{
    if n > 0 {
        lemma_newly_met_empty(kinds, objectives, snapshot, (n - 1) as nat);
    }
}

// ---------------------------------------------------------------------------
// Reading fields out of the debug summary text.

/// Whether `m` occurs in `s` at `i`.
pub open spec fn occurs_at(s: Seq<char>, m: Seq<char>, i: int) -> bool {
    0 <= i && i + m.len() <= s.len() && s.subrange(i, i + m.len()) == m
}

/// The first position at or after `from` where `m` occurs in `s`.
pub open spec fn find_from(s: Seq<char>, m: Seq<char>, from: nat) -> Option<nat>
    decreases s.len() - from,
{
    if from >= s.len() || from + m.len() > s.len() {
        None
    } else if occurs_at(s, m, from as int) {
        Some(from)
    } else {
        find_from(s, m, from + 1)
    }
}

proof fn lemma_find_from(s: Seq<char>, m: Seq<char>, from: nat)
    ensures
        match find_from(s, m, from) {
            Some(i) => from <= i && occurs_at(s, m, i as int),
            None => true,
        },
    decreases s.len() - from,
{
    if from < s.len() && from + m.len() <= s.len() && !occurs_at(s, m, from as int) {
        lemma_find_from(s, m, from + 1);
    }
}

/// The text between the first and the second occurrence of `m` in `s` (to
/// the end when there is no second).
pub open spec fn second_piece(s: Seq<char>, m: Seq<char>) -> Option<Seq<char>> {
    match find_from(s, m, 0) {
        None => None,
        Some(i) => {
            let start = i + m.len();
            let end = match find_from(s, m, start) {
                Some(j) => j as int,
                None => s.len() as int,
            };
            Some(s.subrange(start as int, end))
        },
    }
}

/// The first position at or after `from` whose character is (when `space`)
/// or is not (otherwise) white space, or the length.
pub open spec fn skip_while(p: Seq<char>, from: nat, space: bool) -> nat
    decreases p.len() - from,
{
    if from >= p.len() {
        from
    } else if is_space(p[from as int]) != space {
        from
    } else {
        skip_while(p, from + 1, space)
    }
}

/// The first white-space separated word of `p`.
pub open spec fn first_word(p: Seq<char>) -> Option<Seq<char>> {
    let a = skip_while(p, 0, true);
    if a >= p.len() {
        None
    } else {
        Some(p.subrange(a as int, skip_while(p, a, false) as int))
    }
}

/// The word after the first occurrence of `marker` in `s`.
pub open spec fn field_word(s: Seq<char>, marker: Seq<char>) -> Option<Seq<char>> {
    match second_piece(s, marker) {
        Some(p) => first_word(p),
        None => None,
    }
}

pub open spec fn hex_field(s: Seq<char>, marker: Seq<char>) -> Option<u16> {
    match field_word(s, marker) {
        Some(w) => match parse_unsigned(w, 16, 0xffff) {
            Some(v) => Some(v as u16),
            None => None,
        },
        None => None,
    }
}

/// A decimal field that must also fit below `max`.
pub open spec fn decimal_field(s: Seq<char>, marker: Seq<char>, max: nat) -> Option<nat> {
    match field_word(s, marker) {
        Some(w) => match parse_unsigned(w, 10, 0xffff_ffff) {
            Some(v) => if v <= max {
                Some(v)
            } else {
                None
            },
            None => None,
        },
        None => None,
    }
}

pub open spec fn bool_field(s: Seq<char>, marker: Seq<char>) -> Option<bool> {
    match field_word(s, marker) {
        Some(w) => if w == seq!['t', 'r', 'u', 'e'] {
            Some(true)
        } else if w == seq!['f', 'a', 'l', 's', 'e'] {
            Some(false)
        } else {
            None
        },
        None => None,
    }
}

/// The snapshot a summary text gives at `frame`.
pub open spec fn spec_snapshot(s: Seq<char>, frame: u64) -> EduSnapshot {
    EduSnapshot {
        frame,
        layout_id: hex_field(s, "layoutId="@),
        party_count: match decimal_field(s, "PARTY count="@, 0xff) {
            Some(v) => Some(v as u8),
            None => None,
        },
        party_species: match decimal_field(s, "species="@, 0xffff) {
            Some(v) => Some(v as u16),
            None => None,
        },
        starter_var: match decimal_field(s, "starter="@, 0xffff) {
            Some(v) => Some(v as u16),
            None => None,
        },
        pokemon_get: bool_field(s, "pokemon_get="@),
        rescued_birch: bool_field(s, "rescued_birch="@),
    }
}

/// Whether `m` occurs in `s` at `i`.
fn occurs_at_exec(s: &Vec<char>, m: &Vec<char>, i: usize) -> (r: bool)
    requires
        i + m@.len() <= s@.len(),
    ensures
        r == occurs_at(s@, m@, i as int),
{
    let n = s.len();
    let mut k: usize = 0;
    while k < m.len()
        invariant
            n == s@.len(),
            i + m@.len() <= s@.len(),
            k <= m@.len(),
            forall|j: int| 0 <= j < k ==> s@[i + j] == m@[j],
        decreases m@.len() - k,
    {
        if s[i + k] != m[k] {
            proof {
                assert(s@.subrange(i as int, i + m@.len())[k as int] != m@[k as int]);
            }
            return false;
        }
        k = k + 1;
    }
    proof {
        assert(s@.subrange(i as int, i + m@.len()) =~= m@);
    }
    true
}

/// The first position at or after `from` where `m` occurs in `s`.
fn find_from_exec(s: &Vec<char>, m: &Vec<char>, from: usize) -> (r: Option<usize>)
    requires
        from <= s@.len(),
    ensures
        match r {
            Some(i) => find_from(s@, m@, from as nat) == Some(i as nat),
            None => find_from(s@, m@, from as nat) is None,
        },
{
    if m.len() > s.len() {
        proof {
            assert(find_from(s@, m@, from as nat) is None);
        }
        return None;
    }
    let last = s.len() - m.len();
    let mut i = from;
    while i <= last && i < s.len()
        invariant
            from <= i,
            last + m@.len() == s@.len(),
            find_from(s@, m@, from as nat) == find_from(s@, m@, i as nat),
        decreases last + 1 - i,
    {
        if occurs_at_exec(s, m, i) {
            return Some(i);
        }
        i = i + 1;
    }
    None
}

/// The word after the first occurrence of `marker` in `s`.
fn field_word_exec(s: &Vec<char>, marker: &Vec<char>) -> (r: Option<Vec<char>>)
    ensures
        match r {
            Some(w) => field_word(s@, marker@) == Some(w@),
            None => field_word(s@, marker@) is None,
        },
{
    let first = match find_from_exec(s, marker, 0) {
        Some(i) => i,
        None => {
            return None;
        },
    };
    proof {
        lemma_find_from(s@, marker@, 0);
    }
    let n = s.len();
    let start = first + marker.len();
    proof {
        lemma_find_from(s@, marker@, start as nat);
    }
    let end = match find_from_exec(s, marker, start) {
        Some(j) => j,
        None => s.len(),
    };
    proof {
        let p = s@.subrange(start as int, end as int);
        assert(second_piece(s@, marker@) == Some(p));
    }
    let mut a = start;
    while a < end && is_space_exec(s[a])
        invariant
            start <= a <= end <= s@.len(),
            skip_while(s@.subrange(start as int, end as int), 0, true) == skip_while(
                s@.subrange(start as int, end as int),
                (a - start) as nat,
                true,
            ),
        decreases end - a,
    {
        a = a + 1;
    }
    if a >= end {
        return None;
    }
    let mut b = a;
    while b < end && !is_space_exec(s[b])
        invariant
            start <= a <= b <= end <= s@.len(),
            skip_while(s@.subrange(start as int, end as int), (a - start) as nat, false)
                == skip_while(s@.subrange(start as int, end as int), (b - start) as nat, false),
        decreases end - b,
    {
        b = b + 1;
    }
    let mut w: Vec<char> = Vec::new();
    let mut k = a;
    while k < b
        invariant
            a <= k <= b <= s@.len(),
            w@ == s@.subrange(a as int, k as int),
        decreases b - k,
    {
        w.push(s[k]);
        k = k + 1;
    }
    proof {
        let p = s@.subrange(start as int, end as int);
        assert(w@ =~= p.subrange((a - start) as int, (b - start) as int));
    }
    Some(w)
}

fn hex_field_exec(s: &Vec<char>, marker: &str) -> (r: Option<u16>)
    ensures
        r == hex_field(s@, marker@),
{
    let m = chars_of(marker);
    match field_word_exec(s, &m) {
        Some(w) => match parse_unsigned_exec(&w, 16, 0xffff) {
            Some(v) => Some(v as u16),
            None => None,
        },
        None => None,
    }
}

fn decimal_field_exec(s: &Vec<char>, marker: &str, max: u32) -> (r: Option<u32>)
    ensures
        match r {
            Some(v) => decimal_field(s@, marker@, max as nat) == Some(v as nat),
            None => decimal_field(s@, marker@, max as nat) is None,
        },
{
    let m = chars_of(marker);
    match field_word_exec(s, &m) {
        Some(w) => match parse_unsigned_exec(&w, 10, 0xffff_ffff) {
            Some(v) => if v <= max as u64 {
                Some(v as u32)
            } else {
                None
            },
            None => None,
        },
        None => None,
    }
}

fn bool_field_exec(s: &Vec<char>, marker: &str) -> (r: Option<bool>)
    ensures
        r == bool_field(s@, marker@),
{
    let m = chars_of(marker);
    match field_word_exec(s, &m) {
        Some(w) => {
            if w.len() == 4 && w[0] == 't' && w[1] == 'r' && w[2] == 'u' && w[3] == 'e' {
                proof {
                    assert(w@ =~= seq!['t', 'r', 'u', 'e']);
                }
                Some(true)
            } else if w.len() == 5 && w[0] == 'f' && w[1] == 'a' && w[2] == 'l' && w[3] == 's'
                && w[4] == 'e' {
                proof {
                    assert(w@ =~= seq!['f', 'a', 'l', 's', 'e']);
                }
                Some(false)
            } else {
                proof {
                    if w@ == seq!['t', 'r', 'u', 'e'] {
                        assert(w@[0] == 't' && w@[1] == 'r' && w@[2] == 'u' && w@[3] == 'e');
                    }
                    if w@ == seq!['f', 'a', 'l', 's', 'e'] {
                        assert(w@[0] == 'f' && w@[4] == 'e');
                    }
                }
                None
            }
        },
        None => None,
    }
}

impl EduSnapshot {
    /// Reads the objective-relevant fields of a debug summary taken at
    /// `frame`.
    pub fn from_debug_summary(summary: &str, frame: u64) -> (s: EduSnapshot)
        ensures
            s == spec_snapshot(summary@, frame),
    {
        let text = chars_of(summary);
        let layout_id = hex_field_exec(&text, "layoutId=");
        let party_count = match decimal_field_exec(&text, "PARTY count=", 0xff) {
            Some(v) => Some(v as u8),
            None => None,
        };
        let party_species = match decimal_field_exec(&text, "species=", 0xffff) {
            Some(v) => Some(v as u16),
            None => None,
        };
        let starter_var = match decimal_field_exec(&text, "starter=", 0xffff) {
            Some(v) => Some(v as u16),
            None => None,
        };
        let pokemon_get = bool_field_exec(&text, "pokemon_get=");
        let rescued_birch = bool_field_exec(&text, "rescued_birch=");
        EduSnapshot {
            frame,
            layout_id,
            party_count,
            party_species,
            starter_var,
            pokemon_get,
            rescued_birch,
        }
    }
}

} // verus!
