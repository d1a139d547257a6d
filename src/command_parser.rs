//! The developer command list: command names kept in a radix trie, matched
//! against typed text by longest prefix.
use radix_trie::{Trie, TrieCommon};
use vstd::prelude::*;

verus! {

#[verifier::external_type_specification]
#[verifier::external_body]
#[verifier::reject_recursive_types(K)]
#[verifier::reject_recursive_types(V)]
pub struct ExTrie<K, V>(Trie<K, V>);

/// The key/value pairs held by a trie, keys by their characters.
pub uninterp spec fn trie_contents(t: Trie<String, usize>) -> Map<Seq<char>, usize>;

/// What `str::trim` returns for a string: the text without leading and
/// trailing white space.
pub uninterp spec fn trimmed_of(s: Seq<char>) -> Seq<char>;

/// Some key of `m` is a prefix of `text`.
pub open spec fn has_prefix_key(m: Map<Seq<char>, usize>, text: Seq<char>) -> bool {
    exists|k: Seq<char>| #[trigger] m.contains_key(k) && k.is_prefix_of(text)
}

/// `k` is the longest key of `m` that is a prefix of `text`.
pub open spec fn longest_prefix_key(m: Map<Seq<char>, usize>, text: Seq<char>, k: Seq<char>) -> bool {
    &&& m.contains_key(k)
    &&& k.is_prefix_of(text)
    &&& forall|k2: Seq<char>| #[trigger] m.contains_key(k2) && k2.is_prefix_of(text) ==> k2.len() <= k.len()
}

/// `r` is what `text` invokes among the command names of `m`: nothing when no
/// name starts `text`; otherwise the index of the longest such name, with the
/// trimmed rest of `text`.
pub open spec fn invocation(
    m: Map<Seq<char>, usize>,
    text: Seq<char>,
    r: Option<(usize, String)>,
) -> bool {
    &&& r is None <==> !has_prefix_key(m, text)
    &&& r is Some ==> exists|k: Seq<char>|
        #[trigger] longest_prefix_key(m, text, k) && r->Some_0.0 == m[k] && r->Some_0.1@
            == trimmed_of(text.skip(k.len() as int))
}

/// Relies on `radix_trie::Trie::new`: an empty trie.
#[verifier::external_body]
fn new_trie() -> (r: Trie<String, usize>)
    ensures
        trie_contents(r) =~= Map::empty(),
{
    Trie::new()
}

/// Relies on `radix_trie::Trie::insert`: the key then maps to the value,
/// replacing any earlier value; other keys are untouched.
#[verifier::external_body]
fn trie_insert(t: &mut Trie<String, usize>, key: String, value: usize)
    ensures
        trie_contents(*final(t)) == trie_contents(*old(t)).insert(key@, value),
{
    t.insert(key, value);
}

/// Relies on `radix_trie::Trie::get_ancestor_value`: the value of the
/// longest key that is a prefix of `text`, if any key is. The trie compares
/// UTF-8 bytes; for keys and text that are whole strings this is the
/// same as comparing characters.
#[verifier::external_body]
fn trie_ancestor(t: &Trie<String, usize>, text: &str) -> (r: Option<usize>)
    ensures
        r is Some <==> has_prefix_key(trie_contents(*t), text@),
        r is Some ==> exists|k: Seq<char>|
            longest_prefix_key(trie_contents(*t), text@, k) && #[trigger] trie_contents(*t)[k]
                == r->Some_0,
{
    t.get_ancestor_value(text).copied()
}

/// Relies on `radix_trie::Trie::get_raw_descendant` and `TrieCommon::key`:
/// the key stored at the closest node at or below `text`, if that node holds
/// one. Such a key starts with `text`; when `text` is itself a key, that node
/// is the key's own.
#[verifier::external_body]
fn trie_completion(t: &Trie<String, usize>, text: &str) -> (r: Option<String>)
    ensures
        r is Some ==> trie_contents(*t).contains_key(r->Some_0@) && text@.is_prefix_of(
            r->Some_0@,
        ),
        trie_contents(*t).contains_key(text@) ==> r is Some && r->Some_0@ == text@,
{
    t.get_raw_descendant(text).and_then(|sub| sub.key().cloned())
}

/// Relies on `str::strip_prefix`: the rest of `s` after `prefix`, when `s`
/// starts with it.
#[verifier::external_body]
fn strip_prefix<'a>(s: &'a str, prefix: &str) -> (r: Option<&'a str>)
    ensures
        r is Some <==> prefix@.is_prefix_of(s@),
        r is Some ==> r->Some_0@ == s@.skip(prefix@.len() as int),
{
    s.strip_prefix(prefix)
}

/// Relies on `str::trim`.
#[verifier::external_body]
fn trim(s: &str) -> (r: String)
    ensures
        r@ == trimmed_of(s@),
{
    s.trim().to_string()
}

/// Commands addressed by name. A command is picked by the longest name that
/// starts the typed text; what follows the name, trimmed, is its argument.
pub struct DevCommandList<C> {
    trie: Trie<String, usize>,
    names: Vec<String>,
    commands: Vec<C>,
}

impl<C> DevCommandList<C> {
    /// Command names, each with the index of its command.
    pub closed spec fn routes(&self) -> Map<Seq<char>, usize> {
        trie_contents(self.trie)
    }

    /// The commands in the order they were added.
    pub closed spec fn commands(&self) -> Seq<C> {
        self.commands@
    }

    /// Every name leads to a command that carries that name.
    pub closed spec fn wf(&self) -> bool {
        &&& self.names@.len() == self.commands@.len()
        &&& forall|k: Seq<char>| #[trigger] self.routes().contains_key(k) ==> {
            &&& self.routes()[k] < self.commands@.len()
            &&& self.names@[self.routes()[k] as int]@ == k
        }
    }

    /// A list with no commands.
    pub fn new() -> (r: Self)
        ensures
            r.wf(),
            r.routes() == Map::<Seq<char>, usize>::empty(),
            r.commands() == Seq::<C>::empty(),
    {
        DevCommandList { trie: new_trie(), names: Vec::new(), commands: Vec::new() }
    }

    /// The list with `command` added under `name`; an earlier command of the
    /// same name is no longer reachable.
    pub fn add_command(self, name: String, command: C) -> (r: Self)
        requires
            self.wf(),
        ensures
            r.wf(),
            r.commands() == self.commands().push(command),
            r.routes() == self.routes().insert(name@, self.commands().len() as usize),
    {
        let mut list = self;
        let index = list.commands.len();
        list.names.push(name.clone());
        list.commands.push(command);
        trie_insert(&mut list.trie, name, index);
        proof {
            assert forall|k: Seq<char>| #[trigger] list.routes().contains_key(k) implies {
                &&& list.routes()[k] < list.commands@.len()
                &&& list.names@[list.routes()[k] as int]@ == k
            } by {
                if k != list.names@[index as int]@ {
                    assert(self.routes().contains_key(k));
                }
            }
        }
        list
    }

    /// The list with the default commands added: `setclockspeed`, whose
    /// argument is a multiplier on the speed of the simulation clock.
    pub fn add_default_commands(self, set_clock_speed: C) -> (r: Self)
        requires
            self.wf(),
        ensures
            r.wf(),
            r.commands() == self.commands().push(set_clock_speed),
            r.routes() == self.routes().insert("setclockspeed"@, self.commands().len() as usize),
    {
        self.add_command("setclockspeed".to_owned(), set_clock_speed)
    }

    /// The command at `index`.
    pub fn command(&self, index: usize) -> (c: &C)
        requires
            index < self.commands().len(),
        ensures
            *c == self.commands()[index as int],
    {
        &self.commands[index]
    }

    /// The command that `text` invokes: the one whose name is the longest
    /// prefix of `text`, with the rest of `text`, trimmed, as its argument.
    pub fn parse_command(&self, text: &str) -> (r: Option<(usize, String)>)
        requires
            self.wf(),
        ensures
            invocation(self.routes(), text@, r),
            r is Some ==> r->Some_0.0 < self.commands().len(),
    {
        match trie_ancestor(&self.trie, text) {
            None => None,
            Some(index) => {
                let ghost k = choose|k: Seq<char>|
                    longest_prefix_key(self.routes(), text@, k) && #[trigger] self.routes()[k] == index;
                assert(self.routes().contains_key(k));
                let name = &self.names[index];
                match strip_prefix(text, name.as_str()) {
                    Some(rest) => Some((index, trim(rest))),
                    None => None,
                }
            },
        }
    }

    /// Completion of `text` to a command name that starts with it, if the
    /// trie settles on one; a full name completes to itself.
    pub fn complete(&self, text: &str) -> (r: Option<String>)
        ensures
            r is Some ==> self.routes().contains_key(r->Some_0@) && text@.is_prefix_of(r->Some_0@),
            self.routes().contains_key(text@) ==> r is Some && r->Some_0@ == text@,
    {
        trie_completion(&self.trie, text)
    }
}

} // verus!
