//! Content-addressed store of past test results.
//!
//! A result is keyed by the tree content identifier of the commit it was
//! produced on together with the exact command string. Two commits with
//! identical tree contents therefore share a key, which lets a later
//! commit that is content-identical to an earlier one (for example a
//! revert) reuse a cached result. Entries live until an explicit clean;
//! correctness relies on content addressing, not on expiry.

use vstd::prelude::*;

verus! {

/// Whether `c` counts as whitespace when a command string is escaped into
/// a directory-safe form.
pub open spec fn is_command_space(c: char) -> bool {
    c == ' ' || c == '\t' || c == '\n' || c == '\r'
}

/// The two-character separator that replaces one whitespace character.
pub open spec fn space_separator() -> Seq<char> {
    seq!['_', '_']
}

/// The directory-safe form of a command string: each whitespace character
/// is replaced by the fixed separator `__`, all other characters stay.
pub open spec fn escaped_command(s: Seq<char>) -> Seq<char>
    decreases s.len(),
{
    if s.len() == 0 {
        Seq::empty()
    } else {
        (if is_command_space(s[0]) {
            space_separator()
        } else {
            seq![s[0]]
        }) + escaped_command(s.drop_first())
    }
}

proof fn lemma_escaped_command_snoc(s: Seq<char>, c: char)
    ensures
        escaped_command(s.push(c)) == escaped_command(s) + (if is_command_space(c) {
            space_separator()
        } else {
            seq![c]
        }),
    decreases s.len(),
{
    let tail = if is_command_space(c) {
        space_separator()
    } else {
        seq![c]
    };
    if s.len() == 0 {
        assert(s.push(c)[0] == c);
        assert(s.push(c).drop_first() =~= Seq::<char>::empty());
        assert(escaped_command(Seq::<char>::empty()) =~= Seq::<char>::empty());
        assert(escaped_command(s.push(c)) =~= escaped_command(s) + tail);
    } else {
        assert(s.push(c)[0] == s[0]);
        assert(s.push(c).drop_first() =~= s.drop_first().push(c));
        lemma_escaped_command_snoc(s.drop_first(), c);
        assert(escaped_command(s.push(c)) =~= escaped_command(s) + tail);
    }
}

/// Escape a command string into its directory-safe form.
pub fn escape_command(command: &str) -> (r: String)
    ensures
        r@ == escaped_command(command@),
{
    let n = command.unicode_len();
    let mut r = String::new();
    let mut i: usize = 0;
    proof {
        assert(command@.take(0) =~= Seq::<char>::empty());
    }
    while i < n
        invariant
            i <= n,
            n == command@.len(),
            r@ == escaped_command(command@.take(i as int)),
        decreases n - i,
    {
        let c = command.get_char(i);
        proof {
            assert(command@.take(i as int).push(command@[i as int]) =~= command@.take(
                i as int + 1,
            ));
            lemma_escaped_command_snoc(command@.take(i as int), command@[i as int]);
        }
        if c == ' ' || c == '\t' || c == '\n' || c == '\r' {
            proof {
                reveal_strlit("__");
                assert("__"@ =~= space_separator());
            }
            r.append("__");
        } else {
            let piece = command.substring_char(i, i + 1);
            proof {
                assert(piece@ =~= seq![command@[i as int]]);
            }
            r.append(piece);
        }
        i = i + 1;
    }
    proof {
        assert(command@.take(n as int) =~= command@);
    }
    r
}

/// One stored result of running a command against one tree: the exit
/// code, the captured output streams, and whether the run produced a fix
/// delta that was baked into the commit.
#[derive(Clone, Debug, Eq, PartialEq)]
pub struct CacheEntry {
    /// The exit code the command finished with.
    pub exit_code: i32,
    /// Everything the command wrote to stdout.
    pub stdout: String,
    /// Everything the command wrote to stderr.
    pub stderr: String,
    /// Whether the run produced a non-empty fix delta.
    pub fixed: bool,
}

/// The abstract value of a [`CacheEntry`].
pub struct CacheEntryView {
    /// The exit code.
    pub exit_code: int,
    /// The captured stdout.
    pub stdout: Seq<char>,
    /// The captured stderr.
    pub stderr: Seq<char>,
    /// Whether the run produced a non-empty fix delta.
    pub fixed: bool,
}

impl View for CacheEntry {
    type V = CacheEntryView;

    open spec fn view(&self) -> CacheEntryView {
        CacheEntryView {
            exit_code: self.exit_code as int,
            stdout: self.stdout@,
            stderr: self.stderr@,
            fixed: self.fixed,
        }
    }
}

/// One record of the store: a key (tree identifier, command) and the
/// entry stored under it.
struct CacheRecord {
    tree_id: String,
    command: String,
    entry: CacheEntry,
}

/// The abstract value of one store record.
pub struct CacheRecordView {
    /// The tree content identifier the result was produced on.
    pub tree_id: Seq<char>,
    /// The exact command string that was run.
    pub command: Seq<char>,
    /// The stored result.
    pub entry: CacheEntryView,
}

impl View for CacheRecord {
    type V = CacheRecordView;

    closed spec fn view(&self) -> CacheRecordView {
        CacheRecordView { tree_id: self.tree_id@, command: self.command@, entry: self.entry@ }
    }
}

impl DeepView for CacheRecord {
    type V = CacheRecordView;

    closed spec fn deep_view(&self) -> CacheRecordView {
        self.view()
    }
}

/// Whether a record is stored under the key (`tree_id`, `command`).
pub open spec fn record_has_key(r: CacheRecordView, tree_id: Seq<char>, command: Seq<char>) -> bool {
    r.tree_id == tree_id && r.command == command
}

/// The entry stored under the key (`tree_id`, `command`), if any.
pub open spec fn find_entry(
    m: Seq<CacheRecordView>,
    tree_id: Seq<char>,
    command: Seq<char>,
) -> Option<CacheEntryView>
    decreases m.len(),
{
    if m.len() == 0 {
        None
    } else if record_has_key(m[0], tree_id, command) {
        Some(m[0].entry)
    } else {
        find_entry(m.drop_first(), tree_id, command)
    }
}

/// Whether any record of `m` was produced on `tree_id`.
pub open spec fn has_tree(m: Seq<CacheRecordView>, tree_id: Seq<char>) -> bool {
    exists|k: int| 0 <= k < m.len() && m[k].tree_id == tree_id
}

/// `m` without the record stored under the key (`tree_id`, `command`).
pub open spec fn without_key(
    m: Seq<CacheRecordView>,
    tree_id: Seq<char>,
    command: Seq<char>,
) -> Seq<CacheRecordView>
    decreases m.len(),
{
    if m.len() == 0 {
        Seq::empty()
    } else {
        (if record_has_key(m[0], tree_id, command) {
            Seq::empty()
        } else {
            seq![m[0]]
        }) + without_key(m.drop_first(), tree_id, command)
    }
}

/// `m` without every record produced on `tree_id`.
pub open spec fn without_tree(m: Seq<CacheRecordView>, tree_id: Seq<char>) -> Seq<
    CacheRecordView,
>
    decreases m.len(),
{
    if m.len() == 0 {
        Seq::empty()
    } else {
        (if m[0].tree_id == tree_id {
            Seq::empty()
        } else {
            seq![m[0]]
        }) + without_tree(m.drop_first(), tree_id)
    }
}

/// `m` without every record produced on any of the given trees, removed
/// tree by tree in order.
pub open spec fn without_trees(m: Seq<CacheRecordView>, trees: Seq<Seq<char>>) -> Seq<
    CacheRecordView,
>
    decreases trees.len(),
{
    if trees.len() == 0 {
        m
    } else {
        without_trees(without_tree(m, trees[0]), trees.drop_first())
    }
}

/// The per-tree transcript of a clean operation: for each tree in order,
/// whether the store still held any record for it when its turn came.
pub open spec fn clean_flags(m: Seq<CacheRecordView>, trees: Seq<Seq<char>>) -> Seq<bool>
    decreases trees.len(),
{
    if trees.len() == 0 {
        Seq::empty()
    } else {
        seq![has_tree(m, trees[0])] + clean_flags(without_tree(m, trees[0]), trees.drop_first())
    }
}

/// No two records of `m` share a key.
pub open spec fn distinct_keys(m: Seq<CacheRecordView>) -> bool {
    forall|i: int, j: int|
        0 <= i < j < m.len() ==> !(m[i].tree_id == m[j].tree_id && m[i].command == m[j].command)
}

proof fn lemma_without_key_none(m: Seq<CacheRecordView>, tree_id: Seq<char>, command: Seq<char>)
    requires
        forall|k: int| 0 <= k < m.len() ==> !record_has_key(m[k], tree_id, command),
    ensures
        without_key(m, tree_id, command) =~= m,
    decreases m.len(),
{
    if m.len() > 0 {
        lemma_without_key_none(m.drop_first(), tree_id, command);
    }
}

proof fn lemma_without_key_remove(
    m: Seq<CacheRecordView>,
    tree_id: Seq<char>,
    command: Seq<char>,
    i: int,
)
    requires
        0 <= i < m.len(),
        record_has_key(m[i], tree_id, command),
        forall|k: int| 0 <= k < i ==> !record_has_key(m[k], tree_id, command),
    ensures
        without_key(m.remove(i), tree_id, command) =~= without_key(m, tree_id, command),
    decreases m.len(),
{
    if i == 0 {
        assert(m.remove(0) =~= m.drop_first());
    } else {
        assert(m.remove(i)[0] == m[0]);
        assert(m.remove(i).drop_first() =~= m.drop_first().remove(i - 1));
        lemma_without_key_remove(m.drop_first(), tree_id, command, i - 1);
    }
}

proof fn lemma_without_tree_none(m: Seq<CacheRecordView>, tree_id: Seq<char>)
    requires
        forall|k: int| 0 <= k < m.len() ==> m[k].tree_id != tree_id,
    ensures
        without_tree(m, tree_id) =~= m,
    decreases m.len(),
{
    if m.len() > 0 {
        lemma_without_tree_none(m.drop_first(), tree_id);
    }
}

proof fn lemma_without_tree_remove(m: Seq<CacheRecordView>, tree_id: Seq<char>, i: int)
    requires
        0 <= i < m.len(),
        m[i].tree_id == tree_id,
        forall|k: int| 0 <= k < i ==> m[k].tree_id != tree_id,
    ensures
        without_tree(m.remove(i), tree_id) =~= without_tree(m, tree_id),
    decreases m.len(),
{
    if i == 0 {
        assert(m.remove(0) =~= m.drop_first());
    } else {
        assert(m.remove(i)[0] == m[0]);
        assert(m.remove(i).drop_first() =~= m.drop_first().remove(i - 1));
        lemma_without_tree_remove(m.drop_first(), tree_id, i - 1);
    }
}

proof fn lemma_without_key_no_match(
    m: Seq<CacheRecordView>,
    tree_id: Seq<char>,
    command: Seq<char>,
)
    ensures
        forall|k: int|
            0 <= k < without_key(m, tree_id, command).len() ==> !record_has_key(
                #[trigger] without_key(m, tree_id, command)[k],
                tree_id,
                command,
            ),
    decreases m.len(),
{
    if m.len() > 0 {
        lemma_without_key_no_match(m.drop_first(), tree_id, command);
        let w = without_key(m, tree_id, command);
        let wt = without_key(m.drop_first(), tree_id, command);
        assert forall|k: int| 0 <= k < w.len() implies !record_has_key(
            w[k],
            tree_id,
            command,
        ) by {
            if record_has_key(m[0], tree_id, command) {
                assert(w[k] == wt[k]);
            } else if k == 0 {
                assert(w[0] == m[0]);
            } else {
                assert(w[k] == wt[k - 1]);
            }
        }
    }
}

proof fn lemma_without_tree_no_tree(m: Seq<CacheRecordView>, tree_id: Seq<char>)
    ensures
        forall|k: int|
            0 <= k < without_tree(m, tree_id).len() ==> (#[trigger] without_tree(m, tree_id)[k]).tree_id
                != tree_id,
    decreases m.len(),
{
    if m.len() > 0 {
        lemma_without_tree_no_tree(m.drop_first(), tree_id);
        let w = without_tree(m, tree_id);
        let wt = without_tree(m.drop_first(), tree_id);
        assert forall|k: int| 0 <= k < w.len() implies w[k].tree_id != tree_id by {
            if m[0].tree_id == tree_id {
                assert(w[k] == wt[k]);
            } else if k == 0 {
                assert(w[0] == m[0]);
            } else {
                assert(w[k] == wt[k - 1]);
            }
        }
    }
}

proof fn lemma_without_tree_preserves_missing(
    m: Seq<CacheRecordView>,
    tree_id: Seq<char>,
    missing: Seq<char>,
)
    requires
        forall|k: int| 0 <= k < m.len() ==> m[k].tree_id != missing,
    ensures
        forall|k: int|
            0 <= k < without_tree(m, tree_id).len() ==> (#[trigger] without_tree(m, tree_id)[k]).tree_id
                != missing,
    decreases m.len(),
{
    if m.len() > 0 {
        lemma_without_tree_preserves_missing(m.drop_first(), tree_id, missing);
        let w = without_tree(m, tree_id);
        let wt = without_tree(m.drop_first(), tree_id);
        assert forall|k: int| 0 <= k < w.len() implies w[k].tree_id != missing by {
            if m[0].tree_id == tree_id {
                assert(w[k] == wt[k]);
            } else if k == 0 {
                assert(w[0] == m[0]);
            } else {
                assert(w[k] == wt[k - 1]);
            }
        }
    }
}

proof fn lemma_without_trees_preserves_missing(
    m: Seq<CacheRecordView>,
    trees: Seq<Seq<char>>,
    missing: Seq<char>,
)
    requires
        forall|k: int| 0 <= k < m.len() ==> m[k].tree_id != missing,
    ensures
        forall|k: int|
            0 <= k < without_trees(m, trees).len() ==> (#[trigger] without_trees(m, trees)[k]).tree_id
                != missing,
    decreases trees.len(),
{
    if trees.len() > 0 {
        lemma_without_tree_preserves_missing(m, trees[0], missing);
        lemma_without_trees_preserves_missing(without_tree(m, trees[0]), trees.drop_first(), missing);
        let w = without_trees(m, trees);
        let w2 = without_trees(without_tree(m, trees[0]), trees.drop_first());
        assert(w == w2);
        assert forall|k: int| 0 <= k < w.len() implies w[k].tree_id != missing by {
            assert(w[k] == w2[k]);
        }
    }
}

proof fn lemma_remove_distinct(m: Seq<CacheRecordView>, i: int)
    requires
        0 <= i < m.len(),
        distinct_keys(m),
    ensures
        distinct_keys(m.remove(i)),
{
    assert(forall|k: int| 0 <= k < i ==> m.remove(i)[k] == m[k]);
    assert(forall|k: int| i <= k < m.len() - 1 ==> m.remove(i)[k] == m[k + 1]);
}

proof fn lemma_without_trees_snoc(m: Seq<CacheRecordView>, trees: Seq<Seq<char>>, t: Seq<char>)
    ensures
        without_trees(m, trees.push(t)) == without_tree(without_trees(m, trees), t),
    decreases trees.len(),
{
    if trees.len() == 0 {
        assert(trees.push(t)[0] == t);
        assert(trees.push(t).drop_first() =~= Seq::<Seq<char>>::empty());
        assert(without_trees(without_tree(m, t), Seq::<Seq<char>>::empty()) == without_tree(
            m,
            t,
        ));
        assert(without_trees(m, Seq::<Seq<char>>::empty()) == m);
    } else {
        assert(trees.push(t)[0] == trees[0]);
        assert(trees.push(t).drop_first() =~= trees.drop_first().push(t));
        lemma_without_trees_snoc(without_tree(m, trees[0]), trees.drop_first(), t);
    }
}

proof fn lemma_clean_flags_snoc(m: Seq<CacheRecordView>, trees: Seq<Seq<char>>, t: Seq<char>)
    ensures
        clean_flags(m, trees.push(t)) == clean_flags(m, trees).push(
            has_tree(without_trees(m, trees), t),
        ),
    decreases trees.len(),
{
    if trees.len() == 0 {
        assert(trees.push(t)[0] == t);
        assert(trees.push(t).drop_first() =~= Seq::<Seq<char>>::empty());
        assert(clean_flags(without_tree(m, t), Seq::<Seq<char>>::empty()) =~= Seq::<
            bool,
        >::empty());
        assert(clean_flags(m, trees) =~= Seq::<bool>::empty());
        assert(without_trees(m, trees) == m);
        assert(clean_flags(m, trees.push(t)) =~= clean_flags(m, trees).push(
            has_tree(without_trees(m, trees), t),
        ));
    } else {
        assert(trees.push(t)[0] == trees[0]);
        assert(trees.push(t).drop_first() =~= trees.drop_first().push(t));
        lemma_clean_flags_snoc(without_tree(m, trees[0]), trees.drop_first(), t);
        assert(clean_flags(m, trees.push(t)) =~= clean_flags(m, trees).push(
            has_tree(without_trees(m, trees), t),
        ));
    }
}

proof fn lemma_find_entry_first(
    m: Seq<CacheRecordView>,
    tree_id: Seq<char>,
    command: Seq<char>,
    i: int,
)
    requires
        0 <= i < m.len(),
        record_has_key(m[i], tree_id, command),
        forall|k: int| 0 <= k < i ==> !record_has_key(m[k], tree_id, command),
    ensures
        find_entry(m, tree_id, command) == Some(m[i].entry),
    decreases i,
{
    if i > 0 {
        lemma_find_entry_first(m.drop_first(), tree_id, command, i - 1);
    }
}

proof fn lemma_find_entry_none(m: Seq<CacheRecordView>, tree_id: Seq<char>, command: Seq<char>)
    requires
        forall|k: int| 0 <= k < m.len() ==> !record_has_key(m[k], tree_id, command),
    ensures
        find_entry(m, tree_id, command) is None,
    decreases m.len(),
{
    if m.len() > 0 {
        lemma_find_entry_none(m.drop_first(), tree_id, command);
    }
}

proof fn lemma_find_entry_push(
    m: Seq<CacheRecordView>,
    record: CacheRecordView,
    tree_id: Seq<char>,
    command: Seq<char>,
)
    requires
        forall|k: int| 0 <= k < m.len() ==> !record_has_key(m[k], tree_id, command),
        record_has_key(record, tree_id, command),
    ensures
        find_entry(m.push(record), tree_id, command) == Some(record.entry),
    decreases m.len(),
{
    if m.len() == 0 {
        assert(m.push(record)[0] == record);
    } else {
        assert(m.push(record)[0] == m[0]);
        assert(m.push(record).drop_first() =~= m.drop_first().push(record));
        lemma_find_entry_push(m.drop_first(), record, tree_id, command);
    }
}

/// A result just stored is found again by every lookup with the same
/// tree content identifier and the same command, so a second run over a
/// content-identical commit is served from the cache instead of spawning
/// the command again.
pub proof fn lemma_store_then_found(
    m: Seq<CacheRecordView>,
    tree_id: Seq<char>,
    command: Seq<char>,
    entry: CacheEntryView,
)
    ensures
        find_entry(
            without_key(m, tree_id, command).push(
                CacheRecordView { tree_id, command, entry },
            ),
            tree_id,
            command,
        ) == Some(entry),
{
    lemma_without_key_no_match(m, tree_id, command);
    lemma_find_entry_push(
        without_key(m, tree_id, command),
        CacheRecordView { tree_id, command, entry },
        tree_id,
        command,
    );
}

/// After a clean over a commit set, no result is found for any tree
/// content identifier of that set, whatever the command.
pub proof fn lemma_clean_then_not_found(
    m: Seq<CacheRecordView>,
    trees: Seq<Seq<char>>,
    tree_id: Seq<char>,
    command: Seq<char>,
)
    requires
        trees.contains(tree_id),
    ensures
        find_entry(without_trees(m, trees), tree_id, command) is None,
    decreases trees.len(),
{
    if trees[0] == tree_id {
        lemma_without_tree_no_tree(m, tree_id);
        lemma_without_trees_preserves_missing(
            without_tree(m, tree_id),
            trees.drop_first(),
            tree_id,
        );
        lemma_find_entry_none(without_trees(m, trees), tree_id, command);
    } else {
        let j = choose|j: int| 0 <= j < trees.len() && trees[j] == tree_id;
        assert(trees.drop_first()[j - 1] == tree_id);
        assert(trees.drop_first().contains(tree_id));
        lemma_clean_then_not_found(without_tree(m, trees[0]), trees.drop_first(), tree_id, command);
    }
}

/// The persistent store of past test results, keyed by (tree content
/// identifier, command). The store owns its records; no two records share
/// a key.
pub struct CacheStore {
    records: Vec<CacheRecord>,
}

impl CacheStore {
    /// The records of the store, in storage order.
    pub closed spec fn model(self) -> Seq<CacheRecordView> {
        self.records.deep_view()
    }

    /// No two records share a key.
    pub open spec fn wf(self) -> bool {
        distinct_keys(self.model())
    }

    /// An empty store.
    pub fn new() -> (r: Self)
        ensures
            r.wf(),
            r.model() =~= Seq::<CacheRecordView>::empty(),
    {
        let r = CacheStore { records: Vec::new() };
        proof {
            assert(r.model() =~= Seq::<CacheRecordView>::empty());
        }
        r
    }

    /// The position of the record with the given key, if any.
    fn find_index(&self, tree_id: &str, command: &str) -> (r: Option<usize>)
        ensures
            match r {
                Some(i) => {
                    &&& i < self.model().len()
                    &&& record_has_key(self.model()[i as int], tree_id@, command@)
                    &&& forall|k: int|
                        0 <= k < i ==> !record_has_key(self.model()[k], tree_id@, command@)
                },
                None => forall|k: int|
                    0 <= k < self.model().len() ==> !record_has_key(
                        self.model()[k],
                        tree_id@,
                        command@,
                    ),
            },
    {
        let n = self.records.len();
        let mut i: usize = 0;
        while i < n
            invariant
                i <= n,
                n == self.records.len(),
                self.model().len() == n,
                forall|k: int| 0 <= k < i ==> !record_has_key(self.model()[k], tree_id@, command@),
            decreases n - i,
        {
            let record = &self.records[i];
            if crate::text::str_eq(record.tree_id.as_str(), tree_id) && crate::text::str_eq(
                record.command.as_str(),
                command,
            ) {
                return Some(i);
            }
            i = i + 1;
        }
        None
    }

    /// Look up the stored result for the given key.
    pub fn lookup(&self, tree_id: &str, command: &str) -> (r: Option<&CacheEntry>)
        ensures
            match r {
                Some(entry) => find_entry(self.model(), tree_id@, command@) == Some(entry@),
                None => find_entry(self.model(), tree_id@, command@) is None,
            },
    {
        match self.find_index(tree_id, command) {
            Some(i) => {
                proof {
                    lemma_find_entry_first(self.model(), tree_id@, command@, i as int);
                }
                Some(&self.records[i].entry)
            },
            None => {
                proof {
                    lemma_find_entry_none(self.model(), tree_id@, command@);
                }
                None
            },
        }
    }

    /// Whether the store holds a result for the given key, without
    /// reading it. This supports showing results without executing.
    pub fn has_entry(&self, tree_id: &str, command: &str) -> (r: bool)
        ensures
            r == (find_entry(self.model(), tree_id@, command@) is Some),
    {
        match self.lookup(tree_id, command) {
            Some(_) => true,
            None => false,
        }
    }

    /// Whether the store holds any result produced on `tree_id`.
    pub fn contains_tree(&self, tree_id: &str) -> (r: bool)
        ensures
            r == has_tree(self.model(), tree_id@),
    {
        let n = self.records.len();
        let mut i: usize = 0;
        while i < n
            invariant
                i <= n,
                n == self.records.len(),
                self.model().len() == n,
                forall|k: int| 0 <= k < i ==> self.model()[k].tree_id != tree_id@,
            decreases n - i,
        {
            if crate::text::str_eq(self.records[i].tree_id.as_str(), tree_id) {
                assert(self.model()[i as int].tree_id == tree_id@);
                return true;
            }
            i = i + 1;
        }
        false
    }

    /// Remove every result produced on `tree_id` and report how many were
    /// removed.
    fn remove_tree(&mut self, tree_id: &str) -> (count: usize)
        requires
            old(self).wf(),
        ensures
            final(self).wf(),
            final(self).model() =~= without_tree(old(self).model(), tree_id@),
            final(self).model().len() + count == old(self).model().len(),
    {
        let ghost m0 = self.model();
        let before = self.records.len();
        let mut i: usize = 0;
        while i < self.records.len()
            invariant
                i <= self.records.len(),
                self.model().len() == self.records.len(),
                self.records.len() <= before,
                before == m0.len(),
                distinct_keys(self.model()),
                without_tree(self.model(), tree_id@) == without_tree(m0, tree_id@),
                forall|k: int| 0 <= k < i ==> (#[trigger] self.model()[k]).tree_id != tree_id@,
            decreases self.records.len() - i,
        {
            let ghost cur = self.model();
            if crate::text::str_eq(self.records[i].tree_id.as_str(), tree_id) {
                self.records.remove(i);
                proof {
                    assert(cur[i as int].tree_id == tree_id@);
                    assert(self.model() =~= cur.remove(i as int));
                    lemma_remove_distinct(cur, i as int);
                    lemma_without_tree_remove(cur, tree_id@, i as int);
                    assert(forall|k: int| 0 <= k < i ==> self.model()[k] == cur[k]);
                }
            } else {
                i = i + 1;
            }
        }
        proof {
            lemma_without_tree_none(self.model(), tree_id@);
            assert(self.model() =~= without_tree(self.model(), tree_id@));
        }
        before - self.records.len()
    }

    /// Remove the results for the given trees, tree by tree in order.
    ///
    /// Returns, for each tree in order, whether the store still held any
    /// result for it when its turn came, together with the total number
    /// of results removed.
    pub fn clean(&mut self, trees: &Vec<String>) -> (r: (Vec<bool>, usize))
        requires
            old(self).wf(),
        ensures
            final(self).wf(),
            final(self).model() == without_trees(old(self).model(), trees.deep_view()),
            r.0@ == clean_flags(old(self).model(), trees.deep_view()),
            final(self).model().len() + r.1 == old(self).model().len(),
    {
        let ghost m0 = self.model();
        let ghost tv = trees.deep_view();
        let mut flags: Vec<bool> = Vec::new();
        let before = self.records.len();
        let n = trees.len();
        let mut t: usize = 0;
        proof {
            assert(tv.take(0) =~= Seq::<Seq<char>>::empty());
            assert(without_trees(m0, tv.take(0)) == m0);
            assert(flags@ =~= clean_flags(m0, tv.take(0)));
        }
        while t < n
            invariant
                t <= n,
                n == trees.len(),
                tv == trees.deep_view(),
                self.wf(),
                self.model() == without_trees(m0, tv.take(t as int)),
                flags@ == clean_flags(m0, tv.take(t as int)),
                self.model().len() == self.records.len(),
                self.records.len() <= before,
                before == m0.len(),
            decreases n - t,
        {
            proof {
                assert(tv.take(t as int).push(tv[t as int]) =~= tv.take(t as int + 1));
                lemma_without_trees_snoc(m0, tv.take(t as int), tv[t as int]);
                lemma_clean_flags_snoc(m0, tv.take(t as int), tv[t as int]);
            }
            let had = self.contains_tree(trees[t].as_str());
            flags.push(had);
            let _ = self.remove_tree(trees[t].as_str());
            t = t + 1;
        }
        proof {
            assert(tv.take(n as int) =~= tv);
        }
        let removed = before - self.records.len();
        (flags, removed)
    }

    /// Store a result under the given key, overwriting any earlier result
    /// stored under it.
    pub fn store(&mut self, tree_id: &str, command: &str, entry: CacheEntry)
        requires
            old(self).wf(),
        ensures
            final(self).wf(),
            final(self).model() =~= without_key(old(self).model(), tree_id@, command@).push(
                CacheRecordView { tree_id: tree_id@, command: command@, entry: entry@ },
            ),
    {
        let ghost m = self.model();
        let index = self.find_index(tree_id, command);
        let record = CacheRecord {
            tree_id: tree_id.to_owned(),
            command: command.to_owned(),
            entry,
        };
        match index {
            Some(i) => {
                self.records.remove(i);
                proof {
                    assert(self.records.deep_view() =~= m.remove(i as int));
                    assert forall|j: int|
                        0 <= j < m.len() && j != i implies !record_has_key(
                        m[j],
                        tree_id@,
                        command@,
                    ) by {
                        if record_has_key(m[j], tree_id@, command@) {
                            assert(m[j].tree_id == m[i as int].tree_id && m[j].command == m[
                                i as int
                            ].command);
                        }
                    }
                    assert(forall|k: int|
                        0 <= k < m.remove(i as int).len() ==> !record_has_key(
                            #[trigger] m.remove(i as int)[k],
                            tree_id@,
                            command@,
                        ));
                    lemma_without_key_none(m.remove(i as int), tree_id@, command@);
                    lemma_without_key_remove(m, tree_id@, command@, i as int);
                    assert(m.remove(i as int) =~= without_key(m, tree_id@, command@));
                }
            },
            None => {
                proof {
                    lemma_without_key_none(m, tree_id@, command@);
                    assert(m =~= without_key(m, tree_id@, command@));
                }
            },
        }
        let ghost kept = self.model();
        self.records.push(record);
        proof {
            assert(self.model() =~= kept.push(
                CacheRecordView { tree_id: tree_id@, command: command@, entry: entry@ },
            ));
            assert(forall|k: int|
                0 <= k < kept.len() ==> !record_has_key(#[trigger] kept[k], tree_id@, command@));
            assert(distinct_keys(kept));
            assert(distinct_keys(self.model()));
        }
    }
}

} // verus!
