//! What the solver found: the outcome of the run and the values of the
//! variables.

use crate::status::Status;
use vstd::prelude::*;

verus! {

/// The value that the solver gave to one variable. The value is kept as the
/// report writes it, a floating-point literal.
#[derive(Clone, Debug, PartialEq, Eq)]
pub struct Assignment {
    pub name: String,
    pub value: String,
}

/// The mapping that a list of assignments sets up, from the name of a variable
/// to its value. Where a name occurs more than once, the last value stands.
pub open spec fn as_map(entries: Seq<Assignment>) -> Map<Seq<char>, Seq<char>>
    decreases entries.len(),
{
    if entries.len() == 0 {
        Map::empty()
    } else {
        as_map(entries.drop_last()).insert(entries.last().name@, entries.last().value@)
    }
}

/// Whether no two of the assignments are to the same variable.
pub open spec fn distinct_names(entries: Seq<Assignment>) -> bool {
    forall|i: int, j: int|
        0 <= i < j < entries.len() ==> (#[trigger] entries[i]).name@ != (#[trigger] entries[j]).name@
}

/// The mapping of a list holds the names of the list, and no others.
pub proof fn lemma_as_map_names(entries: Seq<Assignment>)
    ensures
        as_map(entries).dom().finite(),
        as_map(entries).len() <= entries.len(),
        forall|name: Seq<char>| #[trigger]
            as_map(entries).contains_key(name) <==> exists|i: int|
                0 <= i < entries.len() && (#[trigger] entries[i]).name@ == name,
    decreases entries.len(),
{
    if entries.len() > 0 {
        let front = entries.drop_last();
        lemma_as_map_names(front);
        assert forall|name: Seq<char>| #[trigger]
            as_map(entries).contains_key(name) implies exists|i: int|
            0 <= i < entries.len() && (#[trigger] entries[i]).name@ == name by {
            if name == entries.last().name@ {
                assert(entries[entries.len() - 1].name@ == name);
            } else {
                let i = choose|i: int| 0 <= i < front.len() && (#[trigger] front[i]).name@ == name;
                assert(entries[i].name@ == name);
            }
        }
        assert forall|name: Seq<char>|
            (exists|i: int|
                0 <= i < entries.len() && (#[trigger] entries[i]).name@ == name) implies #[trigger]
            as_map(entries).contains_key(name) by {
            let i = choose|i: int| 0 <= i < entries.len() && (#[trigger] entries[i]).name@ == name;
            if i < front.len() {
                assert(front[i].name@ == name);
            }
        }
    }
}

/// Where the names are distinct, the mapping holds one entry for each
/// assignment of the list, with the value of that assignment.
pub proof fn lemma_as_map_distinct(entries: Seq<Assignment>)
    requires
        distinct_names(entries),
    ensures
        as_map(entries).len() == entries.len(),
        forall|i: int|
            0 <= i < entries.len() ==> as_map(entries)[(#[trigger] entries[i]).name@]
                == entries[i].value@,
    decreases entries.len(),
{
    if entries.len() > 0 {
        let front = entries.drop_last();
        let last = entries.last();
        assert(distinct_names(front)) by {
            assert forall|i: int, j: int| 0 <= i < j < front.len() implies (#[trigger] front[i]).name@
                != (#[trigger] front[j]).name@ by {
                assert(entries[i].name@ != entries[j].name@);
            }
        }
        lemma_as_map_distinct(front);
        lemma_as_map_names(front);
        assert(!as_map(front).contains_key(last.name@)) by {
            if as_map(front).contains_key(last.name@) {
                let i = choose|i: int|
                    0 <= i < front.len() && (#[trigger] front[i]).name@ == last.name@;
                assert(entries[i].name@ != entries[entries.len() - 1].name@);
            }
        }
        assert forall|i: int| 0 <= i < entries.len() implies #[trigger] as_map(
            entries,
        )[entries[i].name@] == entries[i].value@ by {
            if i < front.len() {
                assert(front[i].name@ != last.name@) by {
                    assert(entries[i].name@ != entries[entries.len() - 1].name@);
                }
                assert(as_map(front)[front[i].name@] == front[i].value@);
            }
        }
    }
}

/// Where the names are distinct, putting a new value in the place of an
/// assignment changes the mapping as an insertion under that name does.
pub proof fn lemma_as_map_replace(entries: Seq<Assignment>, i: int, entry: Assignment)
    requires
        distinct_names(entries),
        0 <= i < entries.len(),
        entry.name@ == entries[i].name@,
    ensures
        distinct_names(entries.update(i, entry)),
        as_map(entries.update(i, entry)) == as_map(entries).insert(entry.name@, entry.value@),
    decreases entries.len(),
{
    let changed = entries.update(i, entry);
    assert(distinct_names(changed)) by {
        assert forall|a: int, b: int| 0 <= a < b < changed.len() implies (#[trigger] changed[a]).name@
            != (#[trigger] changed[b]).name@ by {
            assert(entries[a].name@ != entries[b].name@);
        }
    }
    let front = entries.drop_last();
    if i == entries.len() - 1 {
        assert(changed.drop_last() == front);
        assert(as_map(changed) =~= as_map(entries).insert(entry.name@, entry.value@));
    } else {
        assert(distinct_names(front)) by {
            assert forall|a: int, b: int| 0 <= a < b < front.len() implies (#[trigger] front[a]).name@
                != (#[trigger] front[b]).name@ by {
                assert(entries[a].name@ != entries[b].name@);
            }
        }
        lemma_as_map_replace(front, i, entry);
        assert(changed.drop_last() == front.update(i, entry));
        assert(changed.last() == entries.last());
        assert(entries[i].name@ != entries[entries.len() - 1].name@);
        assert(as_map(changed) =~= as_map(entries).insert(entry.name@, entry.value@));
    }
}

/// The values of the variables: a mapping from the name of a variable to its
/// value, with one entry for each name.
#[derive(Debug)]
pub struct Assignments {
    entries: Vec<Assignment>,
}

impl View for Assignments {
    type V = Map<Seq<char>, Seq<char>>;

    open spec fn view(&self) -> Map<Seq<char>, Seq<char>> {
        as_map(self.entries())
    }
}

impl Assignments {
    #[verifier::type_invariant]
    spec fn one_entry_for_each_name(self) -> bool {
        distinct_names(self.entries@)
    }

    /// The assignments in the order in which their names first came.
    pub closed spec fn entries(&self) -> Seq<Assignment> {
        self.entries@
    }

    /// A mapping without entries.
    pub fn new() -> (values: Self)
        ensures
            values@ == Map::<Seq<char>, Seq<char>>::empty(),
            values.entries().len() == 0,
    {
        Assignments { entries: Vec::new() }
    }

    /// The number of variables that have a value.
    pub fn len(&self) -> (n: usize)
        ensures
            n == self@.len(),
            n == self.entries().len(),
            self@.dom().finite(),
            distinct_names(self.entries()),
    {
        proof {
            use_type_invariant(self);
            lemma_as_map_distinct(self.entries@);
            lemma_as_map_names(self.entries@);
        }
        self.entries.len()
    }

    /// The assignment at place `i`, for each `i` below the number of
    /// variables.
    pub fn entry(&self, i: usize) -> (found: Option<&Assignment>)
        ensures
            match found {
                Some(entry) => i < self.entries().len() && *entry == self.entries()[i as int]
                    && self@.contains_key(entry.name@) && self@[entry.name@] == entry.value@,
                None => i >= self.entries().len(),
            },
    {
        proof {
            use_type_invariant(self);
            lemma_as_map_distinct(self.entries@);
            lemma_as_map_names(self.entries@);
        }
        if i < self.entries.len() {
            Some(&self.entries[i])
        } else {
            None
        }
    }

    /// The value of the variable `name`, if it has one.
    pub fn get(&self, name: &str) -> (found: Option<&String>)
        ensures
            match found {
                Some(value) => self@.contains_key(name@) && value@ == self@[name@],
                None => !self@.contains_key(name@),
            },
    {
        proof {
            use_type_invariant(self);
            lemma_as_map_distinct(self.entries@);
            lemma_as_map_names(self.entries@);
        }
        let wanted = name.to_owned();
        match position_of(&self.entries, &wanted) {
            Some(i) => Some(&self.entries[i].value),
            None => None,
        }
    }

    /// Gives the variable `name` the value `value`. A value that the variable
    /// had before is overwritten.
    pub fn insert(&mut self, name: String, value: String)
        ensures
            final(self)@ == old(self)@.insert(name@, value@),
    {
        proof {
            use_type_invariant(&*self);
        }
        let mut entries: Vec<Assignment> = Vec::new();
        core::mem::swap(&mut self.entries, &mut entries);
        let at = position_of(&entries, &name);
        let entry = Assignment { name, value };
        match at {
            Some(i) => {
                proof {
                    lemma_as_map_replace(entries@, i as int, entry);
                }
                entries.set(i, entry);
            },
            None => {
                proof {
                    let grown = entries@.push(entry);
                    assert(grown.drop_last() == entries@);
                    assert forall|a: int, b: int|
                        0 <= a < b < grown.len() implies (#[trigger] grown[a]).name@ != (
                    #[trigger] grown[b]).name@ by {
                        if b < entries@.len() {
                            assert(entries@[a].name@ != entries@[b].name@);
                        }
                    }
                }
                entries.push(entry);
            },
        }
        self.entries = entries;
    }
}

/// Finds the place of the assignment to the variable `name`.
fn position_of(entries: &Vec<Assignment>, name: &String) -> (at: Option<usize>)
    ensures
        match at {
            Some(i) => i < entries@.len() && entries@[i as int].name@ == name@,
            None => forall|j: int| 0 <= j < entries@.len() ==> (#[trigger] entries@[j]).name@ != name@,
        },
{
    let mut i: usize = 0;
    while i < entries.len()
        invariant
            i <= entries@.len(),
            forall|j: int| 0 <= j < i ==> (#[trigger] entries@[j]).name@ != name@,
        decreases entries.len() - i,
    {
        if entries[i].name == *name {
            return Some(i);
        }
        i = i + 1;
    }
    None
}

/// The result of a run of the solver.
#[derive(Debug)]
pub struct Solution<'a, P> {
    /// How the run ended.
    pub status: Status,
    /// The values of the variables.
    pub results: Assignments,
    /// The problem that was solved, where the reader of the report knew it.
    pub related_problem: Option<&'a P>,
}

impl<'a, P> Solution<'a, P> {
    /// A solution that is tied to no problem.
    pub fn new(status: Status, results: Assignments) -> (solution: Self)
        ensures
            solution.status == status,
            solution.results == results,
            solution.related_problem is None,
    {
        Solution { status, results, related_problem: None }
    }

    /// The solution of `problem`.
    pub fn with_problem(status: Status, results: Assignments, problem: &'a P) -> (solution: Self)
        ensures
            solution.status == status,
            solution.results == results,
            solution.related_problem == Some(problem),
    {
        Solution { status, results, related_problem: Some(problem) }
    }
}

} // verus!
