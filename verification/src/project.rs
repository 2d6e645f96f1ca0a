//! The rules of a puzzle project file: what its metadata must hold, how
//! chapters are named, targeted and reordered, and how reviewed puzzles are
//! grouped. The SQLite file itself is read and written around these rules.

use vstd::prelude::*;
use crate::models::{Puzzle, PuzzleView};
use crate::text::{chars_of, is_whitespace, is_ws, push_signed_decimal, push_str, seq_eq_str, signed_decimal, string_from_chars};

verus! {

/// The application identifier that a project file carries.
pub const PROJECT_APPLICATION_ID: &'static str = "chess-material-studio-project";

/// The schema version that this version of the studio writes.
pub const PROJECT_SCHEMA_VERSION: i32 = 3;

/// A project's name, schema version and creation time.
#[derive(Debug, Clone, PartialEq, Eq)]
pub struct ProjectMetadata {
    pub project_name: String,
    pub schema_version: i32,
    pub created_at: String,
}

/// A chapter of a project: its identifier, name, position in the project,
/// optional target number of puzzles, and creation time.
#[derive(Debug, Clone, PartialEq, Eq)]
pub struct ProjectChapter {
    pub id: i32,
    pub name: String,
    pub position: i32,
    pub target_puzzle_count: Option<i32>,
    pub created_at: String,
}

/// What was decided of a puzzle reviewed for a chapter.
#[derive(Debug, Clone, Copy, PartialEq, Eq, Structural)]
pub enum ProjectPuzzleDecision {
    Selected,
    Discarded,
}

/// A reviewed puzzle: the chapter, the puzzle as it was reviewed, the
/// decision and when it was taken.
#[derive(Debug, Clone)]
pub struct ProjectPuzzleReview {
    pub chapter_id: i32,
    pub puzzle: Puzzle,
    pub decision: ProjectPuzzleDecision,
    pub reviewed_at: String,
}

/// The puzzles selected for one chapter, in review order.
#[derive(Debug, Clone)]
pub struct ProjectChapterSelectedPuzzles {
    pub chapter_id: i32,
    pub chapter_name: String,
    pub chapter_position: i32,
    pub puzzles: Vec<Puzzle>,
}

impl ProjectPuzzleDecision {
    /// The text that stores a decision.
    pub open spec fn sql_text(self) -> Seq<char> {
        match self {
            ProjectPuzzleDecision::Selected => "selected"@,
            ProjectPuzzleDecision::Discarded => "discarded"@,
        }
    }

    /// The text that stores the decision in the project file.
    pub fn as_sql_value(self) -> (res: &'static str)
        ensures
            res@ == self.sql_text(),
    {
        match self {
            ProjectPuzzleDecision::Selected => "selected",
            ProjectPuzzleDecision::Discarded => "discarded",
        }
    }

    /// Reads a stored decision back; any other text is refused.
    pub fn from_sql_value(value: &str) -> (res: Result<Self, String>)
        ensures
            match res {
                Ok(d) => d.sql_text() == value@,
                Err(e) => value@ != "selected"@ && value@ != "discarded"@ && e@
                    == "project puzzle review has an invalid decision"@,
            },
    {
        proof {
            reveal_strlit("selected");
            reveal_strlit("discarded");
        }
        let v = chars_of(value);
        if seq_eq_str(&v, "selected") {
            Ok(ProjectPuzzleDecision::Selected)
        } else if seq_eq_str(&v, "discarded") {
            Ok(ProjectPuzzleDecision::Discarded)
        } else {
            Err(String::from_str("project puzzle review has an invalid decision"))
        }
    }
}

/// A text that `str::trim` leaves empty: nothing but white space.
pub open spec fn is_blank(s: Seq<char>) -> bool {
    forall|i: int| 0 <= i < s.len() ==> is_ws(#[trigger] s[i])
}

/// Whether a text is nothing but white space.
pub fn blank(s: &str) -> (res: bool)
    ensures
        res == is_blank(s@),
{
    let v = chars_of(s);
    let mut i: usize = 0;
    while i < v.len()
        invariant
            v@ == s@,
            i <= v.len(),
            forall|k: int| 0 <= k < i ==> is_ws(#[trigger] v@[k]),
        decreases v.len() - i,
    {
        if !is_whitespace(v[i]) {
            return false;
        }
        i = i + 1;
    }
    true
}

/// A name must hold something besides white space.
pub fn validate_name(name: &str, field: &str) -> (res: Result<(), String>)
    ensures
        is_blank(name@) <==> res is Err,
        res matches Err(e) ==> e@ == field@ + " cannot be empty"@,
{
    if blank(name) {
        let mut out: Vec<char> = Vec::new();
        push_str(&mut out, field);
        push_str(&mut out, " cannot be empty");
        return Err(string_from_chars(&out));
    }
    Ok(())
}

/// A chapter's target, when set, must be a positive number of puzzles.
pub fn validate_target_puzzle_count(target_puzzle_count: Option<i32>) -> (res: Result<(), String>)
    ensures
        (target_puzzle_count matches Some(t) && t <= 0) <==> res is Err,
        res matches Err(e) ==> e@ == "target puzzle count must be greater than zero"@,
{
    match target_puzzle_count {
        Some(t) => if t <= 0 {
            Err(String::from_str("target puzzle count must be greater than zero"))
        } else {
            Ok(())
        },
        None => Ok(()),
    }
}

/// The identifiers of a list of chapters.
pub open spec fn chapter_ids(chapters: Seq<ProjectChapter>) -> Seq<i32> {
    chapters.map_values(|c: ProjectChapter| c.id)
}

/// What a proposed chapter order is refused for: naming a chapter twice,
/// naming an unknown chapter, or leaving one out; in that order of checks.
pub open spec fn chapter_order_error(existing: Seq<i32>, ordered: Seq<i32>) -> Option<Seq<char>> {
    if !ordered.no_duplicates() {
        Some("chapter order contains duplicate IDs"@)
    } else if exists|i: int| 0 <= i < ordered.len() && !existing.contains(#[trigger] ordered[i]) {
        Some("chapter order contains an unknown ID"@)
    } else if exists|i: int| 0 <= i < existing.len() && !ordered.contains(#[trigger] existing[i]) {
        Some("chapter order is missing an existing ID"@)
    } else {
        None
    }
}

fn contains_id(ids: &[i32], id: i32) -> (res: bool)
    ensures
        res == ids@.contains(id),
{
    let mut i: usize = 0;
    while i < ids.len()
        invariant
            i <= ids.len(),
            forall|k: int| 0 <= k < i ==> ids@[k] != id,
        decreases ids.len() - i,
    {
        if ids[i] == id {
            return true;
        }
        i = i + 1;
    }
    false
}

fn chapter_id_list(chapters: &[ProjectChapter]) -> (res: Vec<i32>)
    ensures
        res@ == chapter_ids(chapters@),
{
    let mut ids: Vec<i32> = Vec::new();
    let mut i: usize = 0;
    while i < chapters.len()
        invariant
            i <= chapters.len(),
            ids@ == chapter_ids(chapters@).take(i as int),
        decreases chapters.len() - i,
    {
        ids.push(chapters[i].id);
        i = i + 1;
        assert(ids@ =~= chapter_ids(chapters@).take(i as int));
    }
    assert(ids@ =~= chapter_ids(chapters@));
    ids
}

/// Checks that a proposed order names each existing chapter exactly once.
pub fn validate_chapter_order(existing_chapters: &[ProjectChapter], ordered_ids: &[i32]) -> (res: Result<(), String>)
    ensures
        match chapter_order_error(chapter_ids(existing_chapters@), ordered_ids@) {
            None => res is Ok,
            Some(e) => (res matches Err(m) && m@ == e),
        },
{
    let existing = chapter_id_list(existing_chapters);
    let ghost ex = existing@;
    let mut i: usize = 0;
    while i < ordered_ids.len()
        invariant
            i <= ordered_ids.len(),
            forall|a: int, b: int| 0 <= a < b < i ==> ordered_ids@[a] != ordered_ids@[b],
        decreases ordered_ids.len() - i,
    {
        let mut j: usize = 0;
        while j < i
            invariant
                i < ordered_ids.len(),
                j <= i,
                forall|a: int| 0 <= a < j ==> ordered_ids@[a] != ordered_ids@[i as int],
            decreases i - j,
        {
            if ordered_ids[j] == ordered_ids[i] {
                return Err(String::from_str("chapter order contains duplicate IDs"));
            }
            j = j + 1;
        }
        i = i + 1;
    }
    assert(ordered_ids@.no_duplicates());
    let mut k: usize = 0;
    while k < ordered_ids.len()
        invariant
            existing@ == ex,
            ex == chapter_ids(existing_chapters@),
            ordered_ids@.no_duplicates(),
            k <= ordered_ids.len(),
            forall|a: int| 0 <= a < k ==> ex.contains(#[trigger] ordered_ids@[a]),
        decreases ordered_ids.len() - k,
    {
        if !contains_id(existing.as_slice(), ordered_ids[k]) {
            assert(!ex.contains(ordered_ids@[k as int]));
            return Err(String::from_str("chapter order contains an unknown ID"));
        }
        k = k + 1;
    }
    let mut m: usize = 0;
    while m < existing.len()
        invariant
            existing@ == ex,
            ex == chapter_ids(existing_chapters@),
            ordered_ids@.no_duplicates(),
            forall|a: int| 0 <= a < ordered_ids@.len() ==> ex.contains(#[trigger] ordered_ids@[a]),
            m <= existing.len(),
            forall|a: int| 0 <= a < m ==> ordered_ids@.contains(#[trigger] ex[a]),
        decreases existing.len() - m,
    {
        if !contains_id(ordered_ids, existing[m]) {
            assert(!ordered_ids@.contains(ex[m as int]));
            return Err(String::from_str("chapter order is missing an existing ID"));
        }
        m = m + 1;
    }
    Ok(())
}

/// The highest position among chapters, or 0 when there is none.
pub open spec fn max_position(chapters: Seq<ProjectChapter>) -> int
    decreases chapters.len(),
{
    if chapters.len() == 0 {
        0
    } else if chapters.len() == 1 {
        chapters[0].position as int
    } else {
        let m = max_position(chapters.drop_last());
        if chapters.last().position > m {
            chapters.last().position as int
        } else {
            m
        }
    }
}

/// The position updates that reorder the chapters, in the order they are
/// made: every chapter is first moved above all present positions, then
/// each is given its place, from 1, in the requested order.
pub open spec fn reorder_plan_spec(existing: Seq<ProjectChapter>, ordered: Seq<i32>) -> Result<Seq<(i32, i32)>, Seq<char>> {
    match chapter_order_error(chapter_ids(existing), ordered) {
        Some(e) => Err(e),
        None => {
            let top = max_position(existing);
            if existing.len() > i32::MAX {
                Err("too many chapters to reorder"@)
            } else if top + 1 > i32::MAX || top + existing.len() > i32::MAX {
                Err("chapter positions cannot be staged safely"@)
            } else {
                Ok(Seq::new(existing.len(), |i: int| (existing[i].id, (top + 1 + i) as i32)) + Seq::new(
                    ordered.len(),
                    |i: int| (ordered[i], (i + 1) as i32),
                ))
            }
        },
    }
}

proof fn lemma_order_fits(existing: Seq<i32>, ordered: Seq<i32>)
    requires
        ordered.no_duplicates(),
        forall|i: int| 0 <= i < ordered.len() ==> existing.contains(#[trigger] ordered[i]),
    ensures
        ordered.len() <= existing.len(),
{
    ordered.unique_seq_to_set();
    existing.lemma_cardinality_of_set();
    assert forall|x: i32| ordered.to_set().contains(x) implies existing.to_set().contains(x) by {
        let i = choose|i: int| 0 <= i < ordered.len() && ordered[i] == x;
        assert(existing.contains(ordered[i]));
    }
    vstd::seq_lib::seq_to_set_is_finite(existing);
    vstd::set_lib::lemma_len_subset(ordered.to_set(), existing.to_set());
}

/// Plans the reordering of a project's chapters as position updates that
/// never give two chapters the same position.
pub fn reorder_plan(existing_chapters: &[ProjectChapter], ordered_ids: &[i32]) -> (res: Result<Vec<(i32, i32)>, String>)
    ensures
        match reorder_plan_spec(existing_chapters@, ordered_ids@) {
            Ok(plan) => (res matches Ok(p) && p@ == plan),
            Err(e) => (res matches Err(m) && m@ == e),
        },
{
    match validate_chapter_order(existing_chapters, ordered_ids) {
        Ok(()) => {},
        Err(e) => {
            return Err(e);
        },
    }
    let n = existing_chapters.len();
    proof {
        let ids = chapter_ids(existing_chapters@);
        assert(ordered_ids@.no_duplicates());
        assert forall|i: int| 0 <= i < ordered_ids@.len() implies ids.contains(#[trigger] ordered_ids@[i]) by {
            if !ids.contains(ordered_ids@[i]) {
                assert(exists|j: int| 0 <= j < ordered_ids@.len() && !ids.contains(#[trigger] ordered_ids@[j]));
            }
        }
        lemma_order_fits(ids, ordered_ids@);
    }
    if n > 2147483647 {
        return Err(String::from_str("too many chapters to reorder"));
    }
    let mut top: i32 = 0;
    let mut i: usize = 0;
    while i < n
        invariant
            n == existing_chapters@.len(),
            i <= n,
            top == max_position(existing_chapters@.take(i as int)),
        decreases n - i,
    {
        let p = existing_chapters[i].position;
        assert(existing_chapters@.take(i as int + 1).drop_last() =~= existing_chapters@.take(i as int));
        if i == 0 || p > top {
            top = p;
        }
        i = i + 1;
    }
    assert(existing_chapters@.take(n as int) =~= existing_chapters@);
    if top == 2147483647 || (top as i64) + (n as i64) > 2147483647 {
        return Err(String::from_str("chapter positions cannot be staged safely"));
    }
    let start: i32 = top + 1;
    let mut plan: Vec<(i32, i32)> = Vec::new();
    let mut j: usize = 0;
    while j < n
        invariant
            n == existing_chapters@.len(),
            n <= 2147483647,
            j <= n,
            top as int + n <= i32::MAX,
            start == top + 1,
            plan@ == Seq::new(j as nat, |k: int| (existing_chapters@[k].id, (top + 1 + k) as i32)),
        decreases n - j,
    {
        plan.push((existing_chapters[j].id, start + j as i32));
        j = j + 1;
        assert(plan@ =~= Seq::new(j as nat, |k: int| (existing_chapters@[k].id, (top + 1 + k) as i32)));
    }
    let ghost staged = plan@;
    let mut k: usize = 0;
    while k < ordered_ids.len()
        invariant
            n == existing_chapters@.len(),
            n <= 2147483647,
            ordered_ids@.len() <= n,
            k <= ordered_ids@.len(),
            plan@ == staged + Seq::new(k as nat, |q: int| (ordered_ids@[q], (q + 1) as i32)),
        decreases ordered_ids.len() - k,
    {
        plan.push((ordered_ids[k], (k + 1) as i32));
        k = k + 1;
        assert(plan@ =~= staged + Seq::new(k as nat, |q: int| (ordered_ids@[q], (q + 1) as i32)));
    }
    Ok(plan)
}

/// The positions of the chapters after the first `k` updates of a plan:
/// an update gives its position to the chapter with its identifier.
pub open spec fn positions_after(existing: Seq<ProjectChapter>, plan: Seq<(i32, i32)>, k: int) -> Seq<int>
    decreases k,
{
    if k <= 0 {
        Seq::new(existing.len(), |i: int| existing[i].position as int)
    } else {
        let prev = positions_after(existing, plan, k - 1);
        let update = plan[k - 1];
        Seq::new(existing.len(), |i: int| if existing[i].id == update.0 { update.1 as int } else { prev[i] })
    }
}

/// The index of an identifier among the first `j` of a list, or -1.
pub open spec fn slot(ordered: Seq<i32>, id: i32, j: int) -> int
    decreases j,
{
    if j <= 0 {
        -1
    } else if ordered[j - 1] == id {
        j - 1
    } else {
        slot(ordered, id, j - 1)
    }
}

proof fn lemma_slot(ordered: Seq<i32>, id: i32, j: int)
    requires
        0 <= j <= ordered.len(),
    ensures
        -1 <= slot(ordered, id, j) < j,
        slot(ordered, id, j) >= 0 ==> ordered[slot(ordered, id, j)] == id,
        slot(ordered, id, j) < 0 ==> forall|q: int| 0 <= q < j ==> ordered[q] != id,
    decreases j,
{
    if j > 0 {
        lemma_slot(ordered, id, j - 1);
    }
}

proof fn lemma_max_position(chapters: Seq<ProjectChapter>)
    ensures
        forall|i: int| 0 <= i < chapters.len() ==> (#[trigger] chapters[i]).position <= max_position(chapters),
        chapters.len() > 0 ==> exists|i: int| 0 <= i < chapters.len() && chapters[i].position == max_position(chapters),
    decreases chapters.len(),
{
    if chapters.len() > 1 {
        lemma_max_position(chapters.drop_last());
        assert forall|i: int| 0 <= i < chapters.len() implies (#[trigger] chapters[i]).position <= max_position(chapters) by {
            if i < chapters.len() - 1 {
                assert(chapters.drop_last()[i] == chapters[i]);
            }
        }
        if chapters.last().position <= max_position(chapters.drop_last()) {
            let i = choose|i: int| 0 <= i < chapters.drop_last().len() && chapters.drop_last()[i].position == max_position(chapters.drop_last());
            assert(chapters[i] == chapters.drop_last()[i]);
        }
    }
}

/// Distinct positions from 1 on reach at least as high as their number.
proof fn lemma_top_at_least_count(chapters: Seq<ProjectChapter>)
    requires
        forall|i: int, j: int| 0 <= i < j < chapters.len() ==> chapters[i].position != chapters[j].position,
        forall|i: int| 0 <= i < chapters.len() ==> (#[trigger] chapters[i]).position >= 1,
    ensures
        max_position(chapters) >= chapters.len(),
{
    lemma_max_position(chapters);
    let top = max_position(chapters);
    let ps = Seq::new(chapters.len(), |i: int| chapters[i].position as int);
    assert(ps.no_duplicates()) by {
        assert forall|i: int, j: int| 0 <= i < ps.len() && 0 <= j < ps.len() && i != j implies ps[i] != ps[j] by {
            if i < j {
            } else {
            }
        }
    }
    ps.unique_seq_to_set();
    if chapters.len() > 0 {
        let range = Set::new(|x: int| 1 <= x <= top);
        assert(range =~= vstd::set_lib::set_int_range(1, top + 1));
        vstd::set_lib::lemma_int_range(1, top + 1);
        assert forall|x: int| ps.to_set().contains(x) implies range.contains(x) by {
            let i = choose|i: int| 0 <= i < ps.len() && ps[i] == x;
            assert(chapters[i].position <= top);
        }
        vstd::set_lib::lemma_len_subset(ps.to_set(), range);
    }
}

/// What the chapters' positions are after the first `k` updates of a
/// reorder plan.
proof fn lemma_positions_formula(existing: Seq<ProjectChapter>, ordered: Seq<i32>, k: int)
    requires
        reorder_plan_spec(existing, ordered) is Ok,
        chapter_ids(existing).no_duplicates(),
        0 <= k <= existing.len() + ordered.len(),
    ensures
        ({
            let plan = reorder_plan_spec(existing, ordered)->Ok_0;
            let top = max_position(existing);
            let n = existing.len() as int;
            forall|i: int| 0 <= i < n ==> #[trigger] positions_after(existing, plan, k)[i] == if k <= n {
                if i < k {
                    top + 1 + i
                } else {
                    existing[i].position as int
                }
            } else if slot(ordered, existing[i].id, k - n) >= 0 {
                slot(ordered, existing[i].id, k - n) + 1
            } else {
                top + 1 + i
            }
        }),
        positions_after(existing, reorder_plan_spec(existing, ordered)->Ok_0, k).len() == existing.len(),
    decreases k,
{
    let plan = reorder_plan_spec(existing, ordered)->Ok_0;
    let top = max_position(existing);
    let n = existing.len() as int;
    let ids = chapter_ids(existing);
    lemma_order_fits(ids, ordered);
    assert(top + n <= i32::MAX);
    lemma_max_position(existing);
    if n > 0 {
        assert(existing[0].position <= top);
    }
    let staged = Seq::new(existing.len(), |i: int| (existing[i].id, (top + 1 + i) as i32));
    let finals = Seq::new(ordered.len(), |i: int| (ordered[i], (i + 1) as i32));
    assert(plan == staged + finals);
    if k > 0 {
        lemma_positions_formula(existing, ordered, k - 1);
        let update = plan[k - 1];
        if k <= n {
            assert(update == staged[k - 1]);
        } else {
            assert(update == finals[k - n - 1]);
            assert(0 <= k - n - 1 < ordered.len());
            assert(update.0 == ordered[k - n - 1]);
            assert(update.1 == k - n);
        }
        let prev = positions_after(existing, plan, k - 1);
        assert(positions_after(existing, plan, k) == Seq::new(
            existing.len(),
            |i: int| if existing[i].id == update.0 { update.1 as int } else { prev[i] },
        ));
        assert forall|i: int| 0 <= i < n implies #[trigger] positions_after(existing, plan, k)[i] == if k <= n {
            if i < k {
                top + 1 + i
            } else {
                existing[i].position as int
            }
        } else if slot(ordered, existing[i].id, k - n) >= 0 {
            slot(ordered, existing[i].id, k - n) + 1
        } else {
            top + 1 + i
        } by {
            if k <= n {
                assert(update == (existing[k - 1].id, (top + 1 + (k - 1)) as i32));
                if i != k - 1 {
                    assert(ids[i] != ids[k - 1]);
                }
            } else {
                let j = k - n - 1;
                lemma_slot(ordered, existing[i].id, j);
                if existing[i].id == ordered[j] {
                    assert(slot(ordered, existing[i].id, j + 1) == j);
                } else {
                    assert(slot(ordered, existing[i].id, j + 1) == slot(ordered, existing[i].id, j));
                }
            }
        }
    }
}

/// Reordering chapters never gives two of them the same position, at any
/// step of the plan, when the chapters' identifiers and positions are
/// distinct and the positions start at 1; in the end each chapter stands at
/// its place (from 1) in the requested order.
pub proof fn law_reorder_never_collides(existing: Seq<ProjectChapter>, ordered: Seq<i32>)
    requires
        reorder_plan_spec(existing, ordered) is Ok,
        chapter_ids(existing).no_duplicates(),
        forall|i: int, j: int| 0 <= i < j < existing.len() ==> existing[i].position != existing[j].position,
        forall|i: int| 0 <= i < existing.len() ==> (#[trigger] existing[i]).position >= 1,
    ensures
        ({
            let plan = reorder_plan_spec(existing, ordered)->Ok_0;
            &&& forall|k: int, i: int, j: int|
                0 <= k <= plan.len() && 0 <= i < j < existing.len() ==> #[trigger] positions_after(existing, plan, k)[i]
                    != #[trigger] positions_after(existing, plan, k)[j]
            &&& forall|q: int, i: int|
                #![trigger positions_after(existing, plan, plan.len() as int)[i], ordered[q]]
                0 <= q < ordered.len() && 0 <= i < existing.len() && existing[i].id == ordered[q]
                    ==> positions_after(existing, plan, plan.len() as int)[i] == q + 1
        }),
{
    let plan = reorder_plan_spec(existing, ordered)->Ok_0;
    let top = max_position(existing);
    let n = existing.len() as int;
    let m = ordered.len() as int;
    let ids = chapter_ids(existing);
    lemma_top_at_least_count(existing);
    lemma_max_position(existing);
    lemma_order_fits(ids, ordered);
    assert(plan.len() == n + m);
    assert forall|k: int, i: int, j: int|
        0 <= k <= plan.len() && 0 <= i < j < existing.len() implies #[trigger] positions_after(existing, plan, k)[i]
            != #[trigger] positions_after(existing, plan, k)[j] by {
        lemma_positions_formula(existing, ordered, k);
        if k > n {
            lemma_slot(ordered, existing[i].id, k - n);
            lemma_slot(ordered, existing[j].id, k - n);
            assert(ids[i] != ids[j]);
            let si = slot(ordered, existing[i].id, k - n);
            let sj = slot(ordered, existing[j].id, k - n);
            if si >= 0 && sj >= 0 {
                assert(ordered[si] != ordered[sj]);
            }
        }
    }
    assert forall|q: int, i: int|
        #![trigger positions_after(existing, plan, plan.len() as int)[i], ordered[q]]
        0 <= q < ordered.len() && 0 <= i < existing.len() && existing[i].id == ordered[q]
            implies positions_after(existing, plan, plan.len() as int)[i] == q + 1 by {
        lemma_positions_formula(existing, ordered, n + m);
        lemma_slot(ordered, existing[i].id, m);
        let s = slot(ordered, existing[i].id, m);
        if s >= 0 && s != q {
            assert(ordered[s] == ordered[q]);
        }
    }
}

/// The metadata row of a project file as it is stored.
#[derive(Debug, Clone)]
pub struct ProjectMetadataRecord {
    pub application_id: String,
    pub schema_version: i32,
    pub project_name: String,
    pub created_at: String,
}

/// Whether the metadata of a file makes it a project that can be opened:
/// for writing, any version from 1 up to the current one (older ones are
/// upgraded first); for reading only, the current version alone. On
/// success, whether the file needs an upgrade.
pub open spec fn metadata_check_spec(r: ProjectMetadataRecord, read_only: bool) -> Result<bool, Seq<char>> {
    if r.application_id@ != PROJECT_APPLICATION_ID@ {
        Err("SQLite file is not a Chess Material Studio project"@)
    } else if is_blank(r.project_name@) || is_blank(r.created_at@) {
        Err("project metadata is missing required values"@)
    } else if read_only {
        if r.schema_version != PROJECT_SCHEMA_VERSION {
            Err("project schema version "@ + signed_decimal(r.schema_version as int)
                + " is not readable without an upgrade"@)
        } else {
            Ok(false)
        }
    } else if r.schema_version < 1 || r.schema_version > PROJECT_SCHEMA_VERSION {
        Err("unsupported project schema version: "@ + signed_decimal(r.schema_version as int))
    } else {
        Ok(r.schema_version < PROJECT_SCHEMA_VERSION)
    }
}

/// Checks the metadata of a project file before it is used.
pub fn check_project_metadata(record: &ProjectMetadataRecord, read_only: bool) -> (res: Result<bool, String>)
    ensures
        match metadata_check_spec(*record, read_only) {
            Ok(b) => res == Ok::<bool, String>(b),
            Err(e) => (res matches Err(m) && m@ == e),
        },
{
    let id = chars_of(record.application_id.as_str());
    if !seq_eq_str(&id, PROJECT_APPLICATION_ID) {
        return Err(String::from_str("SQLite file is not a Chess Material Studio project"));
    }
    if blank(record.project_name.as_str()) || blank(record.created_at.as_str()) {
        return Err(String::from_str("project metadata is missing required values"));
    }
    let v = record.schema_version;
    if read_only {
        if v != PROJECT_SCHEMA_VERSION {
            let mut out: Vec<char> = Vec::new();
            push_str(&mut out, "project schema version ");
            push_signed_decimal(&mut out, v as i64);
            push_str(&mut out, " is not readable without an upgrade");
            return Err(string_from_chars(&out));
        }
        return Ok(false);
    }
    if v < 1 || v > PROJECT_SCHEMA_VERSION {
        let mut out: Vec<char> = Vec::new();
        push_str(&mut out, "unsupported project schema version: ");
        push_signed_decimal(&mut out, v as i64);
        return Err(string_from_chars(&out));
    }
    Ok(v < PROJECT_SCHEMA_VERSION)
}

/// The metadata that a checked record describes.
pub fn project_metadata_from_record(record: &ProjectMetadataRecord) -> (res: ProjectMetadata)
    ensures
        res.project_name@ == record.project_name@,
        res.schema_version == record.schema_version,
        res.created_at@ == record.created_at@,
{
    ProjectMetadata {
        project_name: string_from_chars(&chars_of(record.project_name.as_str())),
        schema_version: record.schema_version,
        created_at: string_from_chars(&chars_of(record.created_at.as_str())),
    }
}

/// One selected puzzle as the project file lists it, with its chapter.
#[derive(Debug, Clone)]
pub struct SelectedPuzzleRow {
    pub chapter_id: i32,
    pub chapter_name: String,
    pub chapter_position: i32,
    pub puzzle: Puzzle,
}

/// A chapter group taken as plain values.
pub struct GroupView {
    pub chapter_id: i32,
    pub chapter_name: Seq<char>,
    pub chapter_position: i32,
    pub puzzles: Seq<PuzzleView>,
}

pub open spec fn group_view(g: ProjectChapterSelectedPuzzles) -> GroupView {
    GroupView {
        chapter_id: g.chapter_id,
        chapter_name: g.chapter_name@,
        chapter_position: g.chapter_position,
        puzzles: g.puzzles@.map_values(|p: Puzzle| p@),
    }
}

/// Groups selected rows, listed chapter by chapter, into one group per run
/// of rows of the same chapter; a group takes the name and position of its
/// first row.
pub open spec fn group_rows(rows: Seq<SelectedPuzzleRow>) -> Seq<GroupView>
    decreases rows.len(),
{
    if rows.len() == 0 {
        Seq::<GroupView>::empty()
    } else {
        let groups = group_rows(rows.drop_last());
        let row = rows.last();
        if groups.len() > 0 && groups.last().chapter_id == row.chapter_id {
            groups.update(
                groups.len() - 1,
                GroupView {
                    chapter_id: groups.last().chapter_id,
                    chapter_name: groups.last().chapter_name,
                    chapter_position: groups.last().chapter_position,
                    puzzles: groups.last().puzzles.push(row.puzzle@),
                },
            )
        } else {
            groups.push(
                GroupView {
                    chapter_id: row.chapter_id,
                    chapter_name: row.chapter_name@,
                    chapter_position: row.chapter_position,
                    puzzles: seq![row.puzzle@],
                },
            )
        }
    }
}

/// The puzzles of a list of groups, one group after the other.
pub open spec fn flatten_groups(groups: Seq<GroupView>) -> Seq<PuzzleView>
    decreases groups.len(),
{
    if groups.len() == 0 {
        Seq::<PuzzleView>::empty()
    } else {
        flatten_groups(groups.drop_last()) + groups.last().puzzles
    }
}

/// Grouping keeps every selected puzzle in the order listed: the groups'
/// puzzles, one group after the other, are the rows' puzzles. No group is
/// empty, and two groups that follow each other belong to different
/// chapters.
pub proof fn law_groups_keep_the_rows(rows: Seq<SelectedPuzzleRow>)
    ensures
        flatten_groups(group_rows(rows)) == rows.map_values(|r: SelectedPuzzleRow| r.puzzle@),
        forall|g: int| 0 <= g < group_rows(rows).len() ==> (#[trigger] group_rows(rows)[g]).puzzles.len() > 0,
        forall|g: int|
            0 <= g < group_rows(rows).len() - 1 ==> (#[trigger] group_rows(rows)[g]).chapter_id != group_rows(rows)[g
                + 1].chapter_id,
    decreases rows.len(),
{
    let all = rows.map_values(|r: SelectedPuzzleRow| r.puzzle@);
    if rows.len() == 0 {
        assert(all =~= Seq::<PuzzleView>::empty());
    } else {
        let prefix = rows.drop_last();
        law_groups_keep_the_rows(prefix);
        let groups = group_rows(prefix);
        let row = rows.last();
        assert(all =~= prefix.map_values(|r: SelectedPuzzleRow| r.puzzle@).push(row.puzzle@));
        if groups.len() > 0 && groups.last().chapter_id == row.chapter_id {
            let last = GroupView {
                chapter_id: groups.last().chapter_id,
                chapter_name: groups.last().chapter_name,
                chapter_position: groups.last().chapter_position,
                puzzles: groups.last().puzzles.push(row.puzzle@),
            };
            let updated = groups.update(groups.len() - 1, last);
            assert(updated.drop_last() =~= groups.drop_last());
            assert(flatten_groups(groups) == flatten_groups(groups.drop_last()) + groups.last().puzzles);
            assert(flatten_groups(updated) =~= flatten_groups(groups).push(row.puzzle@));
        } else {
            let fresh = GroupView {
                chapter_id: row.chapter_id,
                chapter_name: row.chapter_name@,
                chapter_position: row.chapter_position,
                puzzles: seq![row.puzzle@],
            };
            assert(groups.push(fresh).drop_last() =~= groups);
            assert(flatten_groups(groups.push(fresh)) =~= flatten_groups(groups).push(row.puzzle@));
        }
    }
}

/// Gathers the selected puzzles of a project, listed chapter by chapter,
/// into their chapters.
pub fn group_selected_puzzles(rows: Vec<SelectedPuzzleRow>) -> (res: Vec<ProjectChapterSelectedPuzzles>)
    ensures
        res@.map_values(|g: ProjectChapterSelectedPuzzles| group_view(g)) == group_rows(rows@),
{
    let ghost all = rows@;
    let mut rows = rows;
    let mut reversed: Vec<SelectedPuzzleRow> = Vec::new();
    while rows.len() > 0
        invariant
            all == rows@ + reversed@.reverse(),
        decreases rows.len(),
    {
        let row = rows.pop().unwrap();
        reversed.push(row);
        assert(all =~= rows@ + reversed@.reverse());
    }
    let mut groups: Vec<ProjectChapterSelectedPuzzles> = Vec::new();
    let ghost mut k: int = 0;
    assert(all.take(0) =~= Seq::<SelectedPuzzleRow>::empty());
    while reversed.len() > 0
        invariant
            0 <= k <= all.len(),
            all == all.take(k) + reversed@.reverse(),
            groups@.map_values(|g: ProjectChapterSelectedPuzzles| group_view(g)) == group_rows(all.take(k)),
        decreases reversed.len(),
    {
        let ghost before = reversed@;
        let row = reversed.pop().unwrap();
        assert(before.reverse() =~= seq![row] + reversed@.reverse());
        assert(all[k] == row);
        let ghost old_groups = groups@.map_values(|g: ProjectChapterSelectedPuzzles| group_view(g));
        let same = groups.len() > 0 && groups[groups.len() - 1].chapter_id == row.chapter_id;
        let ghost row_view = row.puzzle@;
        let ghost row_id = row.chapter_id;
        let ghost row_name = row.chapter_name@;
        let ghost row_position = row.chapter_position;
        if same {
            let ghost before_groups = groups@;
            let mut g = groups.pop().unwrap();
            let ghost old_g = g;
            g.puzzles.push(row.puzzle);
            assert(g.puzzles@.map_values(|p: Puzzle| p@) =~= old_g.puzzles@.map_values(|p: Puzzle| p@).push(row_view));
            groups.push(g);
            assert(groups@ =~= before_groups.update(before_groups.len() - 1, g));
            assert(groups@.map_values(|x: ProjectChapterSelectedPuzzles| group_view(x)) =~= old_groups.update(
                old_groups.len() - 1,
                GroupView {
                    chapter_id: old_groups.last().chapter_id,
                    chapter_name: old_groups.last().chapter_name,
                    chapter_position: old_groups.last().chapter_position,
                    puzzles: old_groups.last().puzzles.push(row_view),
                },
            ));
        } else {
            let mut puzzles: Vec<Puzzle> = Vec::new();
            puzzles.push(row.puzzle);
            assert(puzzles@.map_values(|p: Puzzle| p@) =~= seq![row_view]);
            let ghost before_groups = groups@;
            groups.push(
                ProjectChapterSelectedPuzzles {
                    chapter_id: row.chapter_id,
                    chapter_name: row.chapter_name,
                    chapter_position: row.chapter_position,
                    puzzles,
                },
            );
            assert(groups@.map_values(|x: ProjectChapterSelectedPuzzles| group_view(x)) =~= before_groups.map_values(|x: ProjectChapterSelectedPuzzles| group_view(x)).push(group_view(groups@.last())));
            assert(groups@.map_values(|x: ProjectChapterSelectedPuzzles| group_view(x)) =~= old_groups.push(
                GroupView {
                    chapter_id: row_id,
                    chapter_name: row_name,
                    chapter_position: row_position,
                    puzzles: seq![row_view],
                },
            ));
        }
        proof {
            assert(all.take(k + 1).drop_last() =~= all.take(k));
            assert(groups@.map_values(|g: ProjectChapterSelectedPuzzles| group_view(g)) =~= group_rows(all.take(k + 1)));
            k = k + 1;
            assert(all =~= all.take(k) + reversed@.reverse());
        }
    }
    assert(all.take(k) =~= all);
    groups
}

/// A stored review as the project file lists it.
#[derive(Debug, Clone)]
pub struct PuzzleReviewRecord {
    pub chapter_id: i32,
    pub puzzle: Puzzle,
    pub decision: String,
    pub reviewed_at: String,
}

/// Reads a stored review, refusing an unknown decision.
pub fn review_from_record(record: PuzzleReviewRecord) -> (res: Result<ProjectPuzzleReview, String>)
    ensures
        match res {
            Ok(r) => r.chapter_id == record.chapter_id && r.puzzle == record.puzzle
                && r.decision.sql_text() == record.decision@ && r.reviewed_at == record.reviewed_at,
            Err(e) => record.decision@ != "selected"@ && record.decision@ != "discarded"@
                && e@ == "project puzzle review has an invalid decision"@,
        },
{
    let decision = match ProjectPuzzleDecision::from_sql_value(record.decision.as_str()) {
        Ok(d) => d,
        Err(e) => {
            return Err(e);
        },
    };
    Ok(ProjectPuzzleReview {
        chapter_id: record.chapter_id,
        puzzle: record.puzzle,
        decision,
        reviewed_at: record.reviewed_at,
    })
}

/// The error reported when a decision cannot be stored: a puzzle selected
/// in another chapter is named as such, anything else is passed on.
pub fn decision_error(unique_violation: bool, decision: ProjectPuzzleDecision, error: &str) -> (res: String)
    ensures
        unique_violation && decision == ProjectPuzzleDecision::Selected ==> res@
            == "puzzle is already selected in another chapter"@,
        !(unique_violation && decision == ProjectPuzzleDecision::Selected) ==> res@
            == "cannot set puzzle decision: "@ + error@,
{
    if unique_violation && decision == ProjectPuzzleDecision::Selected {
        String::from_str("puzzle is already selected in another chapter")
    } else {
        let mut out: Vec<char> = Vec::new();
        push_str(&mut out, "cannot set puzzle decision: ");
        push_str(&mut out, error);
        string_from_chars(&out)
    }
}

} // verus!
