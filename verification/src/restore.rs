//! What the four drivers have in common: the files they hand back, how the
//! latest of several snapshots is picked, and how paths are put together.

use crate::error::Error;
use vstd::prelude::*;
use vstd::string::StringExecFns;
use vstd::string::StrSliceExecFns;

verus! {

/// A file recovered from a repository: where it goes, relative to the
/// output directory, and what it holds.
#[derive(Debug, PartialEq, Eq)]
pub struct RestoredFile {
    pub path: String,
    pub data: Vec<u8>,
}

impl View for RestoredFile {
    type V = (Seq<char>, Seq<u8>);

    open spec fn view(&self) -> (Seq<char>, Seq<u8>) {
        (self.path@, self.data@)
    }
}

/// The paths and contents of a list of restored files.
pub open spec fn files_of(files: Seq<RestoredFile>) -> Seq<(Seq<char>, Seq<u8>)> {
    Seq::new(files.len(), |i: int| files[i]@)
}

/// Whether the outcome of a restore is what `expected` says: the same
/// files in the same order, or the same failure.
pub open spec fn is_outcome(
    outcome: Result<Vec<RestoredFile>, Error>,
    expected: Result<Seq<(Seq<char>, Seq<u8>)>, Error>,
) -> bool {
    match outcome {
        Ok(files) => expected == Ok::<Seq<(Seq<char>, Seq<u8>)>, Error>(files_of(files@)),
        Err(e) => expected == Err::<Seq<(Seq<char>, Seq<u8>)>, Error>(e),
    }
}

/// A restore is deterministic. Two outcomes of restoring the same thing
/// fail alike or hold the same files in the same order, and those files
/// leave the same directory behind, whatever was there before.
pub proof fn lemma_one_outcome(
    first: Result<Vec<RestoredFile>, Error>,
    second: Result<Vec<RestoredFile>, Error>,
    expected: Result<Seq<(Seq<char>, Seq<u8>)>, Error>,
    before: Map<Seq<char>, Seq<u8>>,
)
    requires
        is_outcome(first, expected),
        is_outcome(second, expected),
    ensures
        match (first, second) {
            (Ok(a), Ok(b)) => files_of(a@) == files_of(b@) && written(before, files_of(a@))
                == written(before, files_of(b@)),
            (Err(a), Err(b)) => a == b,
            _ => false,
        },
{
}

/// An instant: seconds since the Unix epoch and nanoseconds within that
/// second.
#[derive(Debug, Clone, Copy, PartialEq, Eq, Structural)]
pub struct Timestamp {
    pub secs: i64,
    pub nanos: u32,
}

impl Timestamp {
    /// A number that grows with the instant: earlier instants have smaller
    /// ranks, and distinct instants distinct ranks.
    pub open spec fn rank(self) -> int {
        self.secs * 0x1_0000_0000 + self.nanos
    }

    /// Tells whether this instant is no later than `other`.
    pub fn not_after(&self, other: &Timestamp) -> (yes: bool)
        ensures
            yes == (self.rank() <= other.rank()),
    {
        self.secs < other.secs || (self.secs == other.secs && self.nanos <= other.nanos)
    }
}

/// The ranks of a list of instants.
pub open spec fn ranks_of(times: Seq<Timestamp>) -> Seq<int> {
    Seq::new(times.len(), |i: int| times[i].rank())
}

/// Whether position `at` holds the greatest of `ranks`, and the last of them
/// where several are equal.
pub open spec fn is_latest(ranks: Seq<int>, at: int) -> bool {
    &&& 0 <= at < ranks.len()
    &&& forall|j: int| 0 <= j < ranks.len() ==> #[trigger] ranks[j] <= ranks[at]
    &&& forall|j: int| at < j < ranks.len() ==> #[trigger] ranks[j] < ranks[at]
}

/// Only one position is the latest.
pub proof fn lemma_latest_unique(ranks: Seq<int>, a: int, b: int)
    requires
        is_latest(ranks, a),
        is_latest(ranks, b),
    ensures
        a == b,
{
    if a < b {
        assert(ranks[b] < ranks[a]);
        assert(ranks[a] <= ranks[b]);
    } else if b < a {
        assert(ranks[a] < ranks[b]);
        assert(ranks[b] <= ranks[a]);
    }
}

/// The position of the latest of `ranks`, which must not be empty.
pub open spec fn latest_of(ranks: Seq<int>) -> int {
    choose|at: int| is_latest(ranks, at)
}

/// Finds the latest of a list of instants, the last one among equals.
pub fn latest(times: &Vec<Timestamp>) -> (at: Option<usize>)
    ensures
        times@.len() == 0 ==> at is None,
        times@.len() > 0 ==> at is Some && is_latest(ranks_of(times@), at->0 as int),
        times@.len() > 0 ==> at->0 == latest_of(ranks_of(times@)),
{
    if times.len() == 0 {
        return None;
    }
    let mut best: usize = 0;
    let mut index: usize = 1;
    while index < times.len()
        invariant
            0 <= best < index <= times@.len(),
            forall|j: int| 0 <= j < index ==> #[trigger] ranks_of(times@)[j] <= ranks_of(times@)[best as int],
            forall|j: int| best < j < index ==> #[trigger] ranks_of(times@)[j] < ranks_of(times@)[best as int],
        decreases times@.len() - index,
    {
        if times[best].not_after(&times[index]) {
            best = index;
        }
        index = index + 1;
    }
    proof {
        assert(is_latest(ranks_of(times@), best as int));
        lemma_latest_unique(ranks_of(times@), best as int, latest_of(ranks_of(times@)));
    }
    Some(best)
}

/// Where the last component of a `/`-separated path begins, looking at its
/// first `upto` characters only.
pub open spec fn leaf_start(path: Seq<char>, upto: int) -> int
    decreases upto,
{
    if upto <= 0 {
        0
    } else if path[upto - 1] == '/' {
        upto
    } else {
        leaf_start(path, upto - 1)
    }
}

/// The last component of a `/`-separated path: what follows its last `/`,
/// or all of it where it has none.
pub open spec fn leaf(path: Seq<char>) -> Seq<char> {
    path.subrange(leaf_start(path, path.len() as int), path.len() as int)
}

/// The start of the leaf lies within the part looked at.
pub proof fn lemma_leaf_start_bounds(path: Seq<char>, upto: int)
    requires
        0 <= upto <= path.len(),
    ensures
        0 <= leaf_start(path, upto) <= upto,
    decreases upto,
{
    if upto > 0 && path[upto - 1] != '/' {
        lemma_leaf_start_bounds(path, upto - 1);
    }
}

/// Gives the last component of a `/`-separated path.
pub fn leaf_name(path: &str) -> (name: String)
    ensures
        name@ == leaf(path@),
{
    let len = path.unicode_len();
    let mut start: usize = len;
    while start > 0 && path.get_char(start - 1) != '/'
        invariant
            0 <= start <= len,
            len == path@.len(),
            leaf_start(path@, len as int) == leaf_start(path@, start as int),
        decreases start,
    {
        start = start - 1;
    }
    String::from_str(path.substring_char(start, len))
}

/// Two path components with a `/` between them.
pub open spec fn joined_path(dir: Seq<char>, name: Seq<char>) -> Seq<char> {
    dir + seq!['/'] + name
}

/// Puts a `/` between two path components.
pub fn join_path(dir: &str, name: &str) -> (path: String)
    ensures
        path@ == joined_path(dir@, name@),
{
    proof {
        reveal_strlit("/");
    }
    let mut path = String::from_str(dir);
    path.append("/");
    path.append(name);
    assert("/"@ =~= seq!['/']);
    path
}

/// Whether `at` is the first position of `list` that carries `name`.
pub open spec fn is_first_named<V>(list: Seq<(String, V)>, name: Seq<char>, at: int) -> bool {
    &&& 0 <= at < list.len()
    &&& list[at].0@ == name
    &&& forall|j: int| 0 <= j < at ==> (#[trigger] list[j]).0@ != name
}

/// Whether no position of `list` carries `name`.
pub open spec fn is_unnamed<V>(list: Seq<(String, V)>, name: Seq<char>) -> bool {
    forall|j: int| 0 <= j < list.len() ==> (#[trigger] list[j]).0@ != name
}

/// The list with `value` filed under `name`: in the place of the first
/// value that carries the name, or at the end where none does.
pub open spec fn with_named<V>(list: Seq<(String, V)>, name: String, value: V) -> Seq<
    (String, V),
> {
    if is_unnamed(list, name@) {
        list.push((name, value))
    } else {
        list.update(choose|at: int| is_first_named(list, name@, at), (name, value))
    }
}

/// The list with the first `upto` of `added` filed in it, one after the
/// other.
pub open spec fn with_all_named<V>(
    list: Seq<(String, V)>,
    added: Seq<(String, V)>,
    upto: int,
) -> Seq<(String, V)>
    decreases upto,
{
    if upto <= 0 {
        list
    } else {
        with_named(with_all_named(list, added, upto - 1), added[upto - 1].0, added[upto - 1].1)
    }
}

/// Whether no name occurs twice in a list.
pub open spec fn names_distinct<V>(list: Seq<(String, V)>) -> bool {
    forall|i: int, j: int|
        0 <= i < j < list.len() ==> (#[trigger] list[i]).0@ != (#[trigger] list[j]).0@
}

/// Filing a value in a list without repeated names leaves it without
/// repeated names.
pub proof fn lemma_with_named_distinct<V>(list: Seq<(String, V)>, name: String, value: V)
    requires
        names_distinct(list),
    ensures
        names_distinct(with_named(list, name, value)),
{
    let after = with_named(list, name, value);
    if is_unnamed(list, name@) {
        assert forall|i: int, j: int| 0 <= i < j < after.len() implies (#[trigger] after[i]).0@ != (
        #[trigger] after[j]).0@ by {
            if j < list.len() {
                assert(list[i].0@ != list[j].0@);
            } else {
                assert(list[i].0@ != name@);
            }
        }
    } else {
        let at = choose|at: int| is_first_named(list, name@, at);
        assert(is_first_named(list, name@, at)) by {
            let k = choose|k: int| 0 <= k < list.len() && !((#[trigger] list[k]).0@ != name@);
            lemma_first_named_exists(list, name@, k);
        }
        assert forall|i: int, j: int| 0 <= i < j < after.len() implies (#[trigger] after[i]).0@ != (
        #[trigger] after[j]).0@ by {
            assert(list[i].0@ != list[j].0@);
            assert(list[at].0@ == name@);
        }
    }
}

/// Where a name occurs in a list, it has a first position.
pub proof fn lemma_first_named_exists<V>(list: Seq<(String, V)>, name: Seq<char>, at: int)
    requires
        0 <= at < list.len(),
        list[at].0@ == name,
    ensures
        exists|first: int| is_first_named(list, name, first),
    decreases at,
{
    if exists|j: int| 0 <= j < at && (#[trigger] list[j]).0@ == name {
        let j = choose|j: int| 0 <= j < at && (#[trigger] list[j]).0@ == name;
        lemma_first_named_exists(list, name, j);
    } else {
        assert(is_first_named(list, name, at));
    }
}

/// Filing values in a list without repeated names leaves it without
/// repeated names.
pub proof fn lemma_with_all_named_distinct<V>(
    list: Seq<(String, V)>,
    added: Seq<(String, V)>,
    upto: int,
)
    requires
        names_distinct(list),
    ensures
        names_distinct(with_all_named(list, added, upto)),
    decreases upto,
{
    if upto > 0 {
        lemma_with_all_named_distinct(list, added, upto - 1);
        lemma_with_named_distinct(
            with_all_named(list, added, upto - 1),
            added[upto - 1].0,
            added[upto - 1].1,
        );
    }
}

/// Looks a name up in a list of named values: the first position that
/// carries it.
pub fn find_named<V>(list: &Vec<(String, V)>, name: &String) -> (at: Option<usize>)
    ensures
        match at {
            Some(i) => is_first_named(list@, name@, i as int),
            None => is_unnamed(list@, name@),
        },
{
    let mut index: usize = 0;
    while index < list.len()
        invariant
            0 <= index <= list@.len(),
            forall|j: int| 0 <= j < index ==> (#[trigger] list@[j]).0@ != name@,
        decreases list@.len() - index,
    {
        if list[index].0 == *name {
            return Some(index);
        }
        index = index + 1;
    }
    None
}

/// Files a value under a name: it takes the place of the first value that
/// carries the name, or goes to the end where none does.
pub fn put_named<V>(list: &mut Vec<(String, V)>, name: String, value: V)
    ensures
        final(list)@ == with_named(old(list)@, name, value),
{
    match find_named(list, &name) {
        Some(at) => {
            proof {
                let chosen = choose|i: int| is_first_named(list@, name@, i);
                assert(is_first_named(list@, name@, at as int));
                assert(chosen == at);
            }
            list[at] = (name, value);
        },
        None => {
            list.push((name, value));
        },
    }
}

/// Files every value of `added` in `list`, in order.
pub fn put_all_named<V>(list: &mut Vec<(String, V)>, added: Vec<(String, V)>)
    ensures
        final(list)@ == with_all_named(old(list)@, added@, added@.len() as int),
{
    let ghost all = added@;
    let ghost start = list@;
    for pair in it: added.into_iter()
        invariant
            it.seq() == all,
            list@ == with_all_named(start, all, it.index() as int),
    {
        let (name, value) = pair;
        put_named(list, name, value);
    }
}

/// The directory contents after a list of files has been written in order,
/// each write replacing whatever the path held before.
pub open spec fn written(
    before: Map<Seq<char>, Seq<u8>>,
    files: Seq<(Seq<char>, Seq<u8>)>,
) -> Map<Seq<char>, Seq<u8>>
    decreases files.len(),
{
    if files.len() == 0 {
        before
    } else {
        written(before, files.drop_last()).insert(files.last().0, files.last().1)
    }
}

/// What the last of a list of writes puts at `path`, if any of them writes
/// there.
pub open spec fn last_write(files: Seq<(Seq<char>, Seq<u8>)>, path: Seq<char>) -> Option<Seq<u8>>
    decreases files.len(),
{
    if files.len() == 0 {
        None
    } else if files.last().0 == path {
        Some(files.last().1)
    } else {
        last_write(files.drop_last(), path)
    }
}

/// After a list of writes, a path holds what the last write to it put
/// there, and what it held before where nothing was written to it.
pub proof fn lemma_written_holds_last(
    before: Map<Seq<char>, Seq<u8>>,
    files: Seq<(Seq<char>, Seq<u8>)>,
    path: Seq<char>,
)
    ensures
        written(before, files).dom().contains(path) <==> before.dom().contains(path) || last_write(
            files,
            path,
        ) is Some,
        last_write(files, path) is Some ==> written(before, files)[path] == last_write(
            files,
            path,
        )->0,
        last_write(files, path) is None ==> written(before, files)[path] == before[path],
    decreases files.len(),
{
    if files.len() > 0 {
        lemma_written_holds_last(before, files.drop_last(), path);
    }
}

/// A restore is idempotent in effect. Writing the same files twice leaves
/// the directory as writing them once does: files are replaced, not added
/// to.
pub proof fn lemma_written_twice(
    before: Map<Seq<char>, Seq<u8>>,
    files: Seq<(Seq<char>, Seq<u8>)>,
)
    ensures
        written(written(before, files), files) == written(before, files),
{
    let once = written(before, files);
    let twice = written(once, files);
    assert forall|path: Seq<char>| twice.dom().contains(path) == once.dom().contains(path) by {
        lemma_written_holds_last(before, files, path);
        lemma_written_holds_last(once, files, path);
    }
    assert forall|path: Seq<char>| twice.dom().contains(path) implies twice[path] == once[path] by {
        lemma_written_holds_last(before, files, path);
        lemma_written_holds_last(once, files, path);
    }
    assert(twice =~= once);
}

} // verus!
