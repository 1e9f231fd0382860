//! Verbs and the verb registry.
//!
//! A [`Verb`] binds a display name to an execution pattern: either one of
//! the built-in sentinels (`:back`, `:focus`, `:toggle_hidden`, `:open`,
//! `:parent`, `:quit`) or a command template expanded by the
//! [`crate::template`] scanner. The [`VerbStore`] maps invocation keys to
//! verbs, is filled once from configuration, and answers exact-match
//! lookups; binding the same key again overwrites the earlier verb.

use vstd::prelude::*;

use crate::path::parent_of;
use crate::path::parent_spec;
use crate::state::AppCommandResult;
use crate::state::AppState;
use crate::state::Launchable;
use crate::state::selected_path_spec;
use crate::state::toggle_hidden_spec;
use crate::strutil::str_eq;
use crate::template::subst;
use crate::template::substitute;

verus! {

/// A named, user-invocable action: a display label and an execution
/// pattern. A verb is a value, never mutated after creation.
#[derive(Debug, Clone)]
pub struct Verb {
    pub name: String,
    pub exec_pattern: String,
}

/// The mathematical image of a [`Verb`]: its fields as character
/// sequences.
pub ghost struct VerbView {
    pub name: Seq<char>,
    pub exec_pattern: Seq<char>,
}

impl View for Verb {
    type V = VerbView;

    open spec fn view(&self) -> VerbView {
        VerbView { name: self.name@, exec_pattern: self.exec_pattern@ }
    }
}

/// True when `pattern` is one of the built-in sentinels rather than a
/// command template.
pub open spec fn is_builtin_pattern(pattern: Seq<char>) -> bool {
    ||| pattern == ":back"@
    ||| pattern == ":focus"@
    ||| pattern == ":toggle_hidden"@
    ||| pattern == ":open"@
    ||| pattern == ":parent"@
    ||| pattern == ":quit"@
}

impl Verb {
    /// Decide the single action the application must take for this verb
    /// against the given state: a built-in sentinel maps to its
    /// navigation outcome, and any other pattern is expanded as a
    /// template into a command launch request.
    ///
    /// The caller must not invoke `:parent` on a path without a parent
    /// (a filesystem root): every tree keeps a valid selection, and
    /// navigating above the root is out of the caller's contract.
    pub fn execute(&self, state: &AppState) -> (res: AppCommandResult)
        requires
            self.exec_pattern@ == ":parent"@ ==> parent_spec(selected_path_spec(*state)) is Some,
        ensures
            self.exec_pattern@ == ":back"@ ==> res == AppCommandResult::PopState,
            self.exec_pattern@ == ":focus"@ ==> (match res {
                AppCommandResult::NewRoot(root) => root@ == selected_path_spec(*state),
                _ => false,
            }),
            self.exec_pattern@ == ":toggle_hidden"@ ==> (match res {
                AppCommandResult::NewOptions(options) => options == toggle_hidden_spec(
                    state.options,
                ),
                _ => false,
            }),
            self.exec_pattern@ == ":open"@ ==> (match res {
                AppCommandResult::Launch(Launchable::Opener(path)) => path@ == selected_path_spec(
                    *state,
                ),
                _ => false,
            }),
            self.exec_pattern@ == ":parent"@ ==> (match res {
                AppCommandResult::NewRoot(root) => parent_spec(selected_path_spec(*state))
                    == Some(root@),
                _ => false,
            }),
            self.exec_pattern@ == ":quit"@ ==> res == AppCommandResult::Quit,
            !is_builtin_pattern(self.exec_pattern@) ==> (match res {
                AppCommandResult::Launch(Launchable::Command(command)) => command@ == subst(
                    self.exec_pattern@,
                    selected_path_spec(*state),
                ),
                _ => false,
            }),
    {
        proof {
            reveal_strlit(":back");
            reveal_strlit(":focus");
            reveal_strlit(":toggle_hidden");
            reveal_strlit(":open");
            reveal_strlit(":parent");
            reveal_strlit(":quit");
            assert(":back"@.len() == 5 && ":back"@[1] == 'b');
            assert(":focus"@.len() == 6);
            assert(":toggle_hidden"@.len() == 14);
            assert(":open"@.len() == 5 && ":open"@[1] == 'o');
            assert(":parent"@.len() == 7);
            assert(":quit"@.len() == 5 && ":quit"@[1] == 'q');
        }
        let path = state.selected_path();
        let pattern = self.exec_pattern.as_str();
        if str_eq(pattern, ":back") {
            AppCommandResult::PopState
        } else if str_eq(pattern, ":focus") {
            AppCommandResult::NewRoot(path.clone())
        } else if str_eq(pattern, ":toggle_hidden") {
            let mut options = state.options;
            options.show_hidden = !options.show_hidden;
            AppCommandResult::NewOptions(options)
        } else if str_eq(pattern, ":open") {
            AppCommandResult::Launch(Launchable::Opener(path.clone()))
        } else if str_eq(pattern, ":parent") {
            match parent_of(path.as_str()) {
                Some(parent) => AppCommandResult::NewRoot(parent),
                None => vstd::pervasive::unreached(),
            }
        } else if str_eq(pattern, ":quit") {
            AppCommandResult::Quit
        } else {
            AppCommandResult::Launch(Launchable::Command(substitute(pattern, path.as_str())))
        }
    }
}

/// One parsed configuration record: the invocation key, the display
/// name, and the execution pattern of a verb to register.
#[derive(Debug, Clone)]
pub struct VerbConf {
    pub invocation: String,
    pub name: String,
    pub execution: String,
}

/// Parsed configuration: the ordered collection of verb records.
#[derive(Debug, Clone)]
pub struct Conf {
    pub verbs: Vec<VerbConf>,
}

/// One binding held by the registry.
#[derive(Debug, Clone)]
struct VerbEntry {
    key: String,
    verb: Verb,
}

/// The registry: a mapping from invocation key to verb. Entries are kept
/// in binding order and the latest binding for a key wins, so the
/// abstract content is a map.
pub struct VerbStore {
    verbs: Vec<VerbEntry>,
}

/// The map described by a sequence of bindings, later bindings
/// overwriting earlier ones.
spec fn store_map(entries: Seq<VerbEntry>) -> Map<Seq<char>, VerbView>
    decreases entries.len(),
{
    if entries.len() == 0 {
        Map::empty()
    } else {
        store_map(entries.drop_last()).insert(entries.last().key@, entries.last().verb@)
    }
}

impl View for VerbStore {
    type V = Map<Seq<char>, VerbView>;

    closed spec fn view(&self) -> Map<Seq<char>, VerbView> {
        store_map(self.verbs@)
    }
}

/// The map `m` after binding every record of `records` in order, each
/// record under its invocation key.
pub open spec fn filled_map(m: Map<Seq<char>, VerbView>, records: Seq<VerbConf>) -> Map<
    Seq<char>,
    VerbView,
>
    decreases records.len(),
{
    if records.len() == 0 {
        m
    } else {
        filled_map(m, records.drop_last()).insert(
            records.last().invocation@,
            VerbView { name: records.last().name@, exec_pattern: records.last().execution@ },
        )
    }
}

impl VerbStore {
    /// An empty registry: no key is bound.
    pub fn new() -> (store: VerbStore)
        ensures
            store@ == Map::<Seq<char>, VerbView>::empty(),
    {
        VerbStore { verbs: Vec::new() }
    }

    /// Bind `verb` under `invocation`, overwriting any earlier binding
    /// for that key.
    pub fn insert(&mut self, invocation: String, verb: Verb)
        ensures
            final(self)@ == old(self)@.insert(invocation@, verb@),
    {
        let ghost prev = self.verbs@;
        self.verbs.push(VerbEntry { key: invocation, verb });
        proof {
            assert(self.verbs@.drop_last() =~= prev);
        }
    }

    /// Register every record of `conf`, in order: a key bound twice
    /// keeps the record that comes later.
    pub fn fill_from_conf(&mut self, conf: &Conf)
        ensures
            final(self)@ == filled_map(old(self)@, conf.verbs@),
    {
        let n = conf.verbs.len();
        let mut idx: usize = 0;
        while idx < n
            invariant
                n == conf.verbs@.len(),
                idx <= n,
                self@ == filled_map(old(self)@, conf.verbs@.subrange(0, idx as int)),
            decreases n - idx,
        {
            let record = &conf.verbs[idx];
            self.insert(
                record.invocation.clone(),
                Verb { name: record.name.clone(), exec_pattern: record.execution.clone() },
            );
            proof {
                assert(conf.verbs@.subrange(0, idx as int + 1).drop_last() =~= conf.verbs@.subrange(
                    0,
                    idx as int,
                ));
                assert(self@ =~= filled_map(old(self)@, conf.verbs@.subrange(0, idx as int + 1)));
            }
            idx = idx + 1;
        }
        proof {
            assert(conf.verbs@.subrange(0, n as int) =~= conf.verbs@);
        }
    }

    /// Exact-match lookup: the verb bound to `verb_key`, or nothing when
    /// the key is unbound.
    pub fn get(&self, verb_key: &str) -> (res: Option<&Verb>)
        ensures
            res is Some <==> self@.contains_key(verb_key@),
            res matches Some(verb) ==> self@[verb_key@] == verb@,
    {
        let n = self.verbs.len();
        proof {
            assert(self.verbs@.subrange(0, n as int) =~= self.verbs@);
        }
        let mut i: usize = n;
        while i > 0
            invariant
                n == self.verbs@.len(),
                i <= n,
                self@.contains_key(verb_key@) == store_map(
                    self.verbs@.subrange(0, i as int),
                ).contains_key(verb_key@),
                self@.contains_key(verb_key@) ==> self@[verb_key@] == store_map(
                    self.verbs@.subrange(0, i as int),
                )[verb_key@],
            decreases i,
        {
            proof {
                assert(self.verbs@.subrange(0, i as int).drop_last() =~= self.verbs@.subrange(
                    0,
                    i as int - 1,
                ));
            }
            if str_eq(self.verbs[i - 1].key.as_str(), verb_key) {
                return Some(&self.verbs[i - 1].verb);
            }
            i = i - 1;
        }
        None
    }
}

/// Binding the same key twice keeps only the second verb: the registry
/// is last-writer-wins, and a lookup after both insertions sees the
/// second verb's fields.
pub proof fn lemma_insert_last_writer_wins(
    m: Map<Seq<char>, VerbView>,
    key: Seq<char>,
    first: VerbView,
    second: VerbView,
)
    ensures
        m.insert(key, first).insert(key, second) == m.insert(key, second),
        m.insert(key, first).insert(key, second)[key] == second,
{
    assert(m.insert(key, first).insert(key, second) =~= m.insert(key, second));
}

/// A lookup in an empty registry finds nothing, whatever the key.
pub proof fn lemma_empty_store_lookup(key: Seq<char>)
    ensures
        !Map::<Seq<char>, VerbView>::empty().contains_key(key),
{
}

} // verus!

