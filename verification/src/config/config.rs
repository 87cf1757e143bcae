use crate::config::constructs::Rule;
use crate::config::errors::ConfigParseError;
use crate::config::url_regex::{pattern_compiles, pattern_matches, UriRegex};
use vstd::prelude::*;
use vstd::string::*;

verus! {

/// A rule table as plain values: pattern texts with their rules, in the order
/// of declaration.
pub open spec fn table_of(rules: Seq<(UriRegex, Rule)>) -> Seq<(Seq<char>, Rule)> {
    Seq::new(rules.len(), |i: int| (rules[i].0.pattern(), rules[i].1))
}

/// The patterns and rules of a list that still holds its patterns as texts.
pub open spec fn named(rules: Seq<(String, Rule)>) -> Seq<(Seq<char>, Rule)> {
    Seq::new(rules.len(), |i: int| (rules[i].0@, rules[i].1))
}

/// No pattern text stands twice in the table.
pub open spec fn distinct_patterns(entries: Seq<(Seq<char>, Rule)>) -> bool {
    forall|i: int, j: int|
        0 <= i < j < entries.len() ==> (#[trigger] entries[i]).0 != (#[trigger] entries[j]).0
}

/// The entry at `i` is keyed by `pattern`.
pub open spec fn key_at(entries: Seq<(Seq<char>, Rule)>, pattern: Seq<char>, i: int) -> bool {
    0 <= i < entries.len() && entries[i].0 == pattern
}

/// Where `pattern` stands in the table, if it does.
pub open spec fn position(entries: Seq<(Seq<char>, Rule)>, pattern: Seq<char>) -> Option<int> {
    if exists|i: int| key_at(entries, pattern, i) {
        Some(choose|i: int| key_at(entries, pattern, i))
    } else {
        None
    }
}

/// The table after `rule` was added under `pattern`: a pattern that stands in
/// the table keeps its place and gets the new rule; a new one goes to the end.
pub open spec fn inserted(entries: Seq<(Seq<char>, Rule)>, pattern: Seq<char>, rule: Rule) -> Seq<
    (Seq<char>, Rule),
> {
    match position(entries, pattern) {
        Some(i) => entries.update(i, (pattern, rule)),
        None => entries.push((pattern, rule)),
    }
}

/// The table that comes of adding the items one by one, in their order, to
/// the empty table.
pub open spec fn loaded(items: Seq<(Seq<char>, Rule)>) -> Seq<(Seq<char>, Rule)>
    decreases items.len(),
{
    if items.len() == 0 {
        Seq::empty()
    } else {
        inserted(loaded(items.drop_last()), items.last().0, items.last().1)
    }
}

/// The pattern of the entry at `i` matches somewhere in `path`.
pub open spec fn matches_at(entries: Seq<(Seq<char>, Rule)>, path: Seq<char>, i: int) -> bool {
    0 <= i < entries.len() && pattern_matches(entries[i].0, path)
}

/// The entry at `i` matches `path`, and none before it does.
pub open spec fn is_first_match(entries: Seq<(Seq<char>, Rule)>, path: Seq<char>, i: int) -> bool {
    matches_at(entries, path, i) && forall|j: int| 0 <= j < i ==> !matches_at(entries, path, j)
}

/// The place of the rule that answers for `path`: of the entries whose
/// pattern matches, the one declared first.
pub open spec fn first_match(entries: Seq<(Seq<char>, Rule)>, path: Seq<char>) -> Option<int> {
    if exists|i: int| matches_at(entries, path, i) {
        Some(choose|i: int| is_first_match(entries, path, i))
    } else {
        None
    }
}

/// Every pattern of the list compiles.
pub open spec fn all_compile(rules: Seq<(String, Rule)>) -> bool {
    forall|i: int| 0 <= i < rules.len() ==> pattern_compiles((#[trigger] rules[i]).0@)
}

/// Adding a rule keeps the pattern texts of a table distinct.
pub proof fn lemma_inserted_distinct(
    entries: Seq<(Seq<char>, Rule)>,
    pattern: Seq<char>,
    rule: Rule,
)
    requires
        distinct_patterns(entries),
    ensures
        distinct_patterns(inserted(entries, pattern, rule)),
{
    let after = inserted(entries, pattern, rule);
    match position(entries, pattern) {
        Some(k) => {
            assert(key_at(entries, pattern, k));
            assert forall|i: int, j: int| 0 <= i < j < after.len() implies after[i].0
                != after[j].0 by {
                assert(entries[i].0 != entries[j].0);
            }
        },
        None => {
            assert forall|i: int, j: int| 0 <= i < j < after.len() implies after[i].0
                != after[j].0 by {
                if j < entries.len() {
                    assert(entries[i].0 != entries[j].0);
                } else {
                    assert(!key_at(entries, pattern, i));
                }
            }
        },
    }
}

/// A table built by adding items one by one holds no pattern text twice.
pub proof fn lemma_loaded_distinct(items: Seq<(Seq<char>, Rule)>)
    ensures
        distinct_patterns(loaded(items)),
    decreases items.len(),
{
    if items.len() > 0 {
        lemma_loaded_distinct(items.drop_last());
        lemma_inserted_distinct(loaded(items.drop_last()), items.last().0, items.last().1);
    }
}

/// Adds one rule to a list of compiled entries.
fn insert_entry(rules: &mut Vec<(UriRegex, Rule)>, key: UriRegex, rule: Rule)
    requires
        distinct_patterns(table_of(old(rules)@)),
    ensures
        table_of(final(rules)@) == inserted(table_of(old(rules)@), key.pattern(), rule),
        distinct_patterns(table_of(final(rules)@)),
{
    let ghost before = table_of(rules@);
    let mut i: usize = 0;
    while i < rules.len()
        invariant
            i <= rules.len(),
            table_of(rules@) == before,
            before == table_of(old(rules)@),
            distinct_patterns(before),
            forall|j: int| 0 <= j < i ==> !key_at(before, key.pattern(), j),
        decreases rules.len() - i,
    {
        if rules[i].0.has_pattern(key.as_str()) {
            let ghost held = rules@;
            let (kept, _) = rules.remove(i);
            rules.insert(i, (kept, rule));
            proof {
                assert(before[i as int] == (held[i as int].0.pattern(), held[i as int].1));
                assert(key_at(before, key.pattern(), i as int));
                let chosen = choose|k: int| key_at(before, key.pattern(), k);
                assert(key_at(before, key.pattern(), chosen));
                if chosen != i {
                    if chosen < i {
                        assert(before[chosen].0 != before[i as int].0);
                    } else {
                        assert(before[i as int].0 != before[chosen].0);
                    }
                }
                assert(position(before, key.pattern()) == Some(i as int));
                assert(table_of(rules@) =~= before.update(i as int, (key.pattern(), rule)));
                lemma_inserted_distinct(before, key.pattern(), rule);
            }
            return ;
        }
        i = i + 1;
    }
    rules.push((key, rule));
    proof {
        assert(forall|j: int| !key_at(before, key.pattern(), j));
        assert(table_of(rules@) =~= before.push((key.pattern(), rule)));
        lemma_inserted_distinct(before, key.pattern(), rule);
    }
}

/// Where the cache client is reached when the configuration names no place.
pub open spec fn default_docker_path() -> Seq<char> {
    "/var/run/docker.sock"@
}

/// Returns the place of the cache client that a configuration gets when it
/// names none.
pub fn default_docker_client() -> (path: String)
    ensures
        path@ == default_docker_path(),
{
    String::from_str("/var/run/docker.sock")
}

/// The address that the proxy binds when the configuration names none.
pub open spec fn default_ip_text() -> Seq<char> {
    "0.0.0.0"@
}

/// The port that the proxy binds when the configuration names none.
pub open spec fn default_port_number() -> int {
    80
}

/// Returns the address that the proxy binds when the configuration names
/// none.
pub fn default_ip() -> (ip: String)
    ensures
        ip@ == default_ip_text(),
{
    String::from_str("0.0.0.0")
}

/// Returns the port that the proxy binds when the configuration names none.
pub fn default_port() -> (port: u16)
    ensures
        port == default_port_number(),
{
    80
}

/// The loaded configuration: the address and port to bind, where the cache
/// client is reached, and the rule table.
///
/// The table is an ordered list. Of the patterns that match a path, the one
/// declared first answers for it. No pattern text stands twice.
#[derive(Debug, PartialEq, Eq)]
pub struct Config {
    ip: String,
    port: u16,
    docker_path: String,
    rules: Vec<(UriRegex, Rule)>,
}

impl Config {
    /// No pattern text stands twice in the table.
    #[verifier::type_invariant]
    pub closed spec fn wf(&self) -> bool {
        distinct_patterns(table_of(self.rules@))
    }

    /// The rule table as plain values.
    pub closed spec fn entries(&self) -> Seq<(Seq<char>, Rule)> {
        table_of(self.rules@)
    }

    /// The place of the cache client.
    pub closed spec fn docker(&self) -> Seq<char> {
        self.docker_path@
    }

    /// The address to bind.
    pub closed spec fn bind_ip(&self) -> Seq<char> {
        self.ip@
    }

    /// The port to bind.
    pub closed spec fn bind_port(&self) -> u16 {
        self.port
    }

    /// A well-formed configuration holds no pattern text twice.
    pub proof fn lemma_entries_distinct(self)
        requires
            self.wf(),
        ensures
            distinct_patterns(self.entries()),
    {
    }

    /// Builds a configuration from entries in their order of declaration. Of
    /// two entries with the same pattern text the first gives the place in the
    /// order, the second the rule.
    pub fn new(ip: String, port: u16, docker_path: String, rules: Vec<(UriRegex, Rule)>) -> (config:
        Self)
        ensures
            config.bind_ip() == ip@,
            config.bind_port() == port,
            config.docker() == docker_path@,
            config.entries() == loaded(table_of(rules@)),
            distinct_patterns(config.entries()),
    {
        let ghost items = table_of(rules@);
        let mut rest = rules;
        let mut table: Vec<(UriRegex, Rule)> = Vec::new();
        let ghost mut done: int = 0;
        proof {
            assert(items.take(0) =~= Seq::empty());
            assert(table_of(table@) =~= Seq::empty());
            assert(items.skip(0) =~= items);
        }
        while rest.len() > 0
            invariant
                0 <= done <= items.len(),
                table_of(rest@) == items.skip(done),
                table_of(table@) == loaded(items.take(done)),
                distinct_patterns(table_of(table@)),
            decreases rest.len(),
        {
            let ghost held = rest@;
            proof {
                assert(items.skip(done).len() == held.len());
            }
            let (key, rule) = rest.remove(0);
            proof {
                assert(items.skip(done)[0] == (held[0].0.pattern(), held[0].1));
                assert(items.take(done + 1).drop_last() =~= items.take(done));
                assert(items.take(done + 1).last() == (key.pattern(), rule));
                assert forall|k: int| 0 <= k < rest@.len() implies table_of(rest@)[k]
                    == items.skip(done + 1)[k] by {
                    assert(items.skip(done)[k + 1] == (held[k + 1].0.pattern(), held[k + 1].1));
                }
                assert(table_of(rest@) =~= items.skip(done + 1));
            }
            insert_entry(&mut table, key, rule);
            proof {
                done = done + 1;
            }
        }
        proof {
            assert(table_of(rest@).len() == 0);
            assert(items.take(done) =~= items);
        }
        Config { ip, port, docker_path, rules: table }
    }

    /// Loads a configuration from patterns that are still texts, in their
    /// order of declaration. It fails exactly when one of the patterns is no
    /// valid regular expression, and then no table comes of it.
    pub fn from_rules(
        ip: String,
        port: u16,
        docker_path: String,
        rules: Vec<(String, Rule)>,
    ) -> (loaded: Result<Self, ConfigParseError>)
        ensures
            loaded is Ok == all_compile(rules@),
            loaded is Ok ==> loaded->Ok_0.bind_ip() == ip@ && loaded->Ok_0.bind_port() == port
                && loaded->Ok_0.docker() == docker_path@ && loaded->Ok_0.entries() == self::loaded(
                named(rules@),
            ),
            loaded is Err ==> loaded->Err_0 == ConfigParseError::InvalidRegexRule,
    {
        let ghost items = rules@;
        let mut rest = rules;
        let mut compiled: Vec<(UriRegex, Rule)> = Vec::new();
        let ghost mut done: int = 0;
        proof {
            assert(items.skip(0) =~= items);
            assert(table_of(compiled@) =~= named(items.take(0)));
        }
        while rest.len() > 0
            invariant
                0 <= done <= items.len(),
                items == rules@,
                rest@ == items.skip(done),
                table_of(compiled@) == named(items.take(done)),
                forall|i: int| 0 <= i < done ==> pattern_compiles((#[trigger] items[i]).0@),
            decreases rest.len(),
        {
            proof {
                assert(items.skip(done).len() == rest@.len());
            }
            let (text, rule) = rest.remove(0);
            proof {
                assert(items.skip(done)[0] == items[done]);
                assert(items[done] == (text, rule));
                assert(rest@ =~= items.skip(done + 1));
            }
            let ghost sofar = compiled@;
            match UriRegex::from_str(text.as_str()) {
                Ok(key) => {
                    compiled.push((key, rule));
                    proof {
                        assert(done < items.len());
                        assert(table_of(sofar).len() == sofar.len());
                        assert(named(items.take(done)).len() == done);
                        assert(key.pattern() == items[done].0@);
                        assert forall|k: int| 0 <= k < compiled@.len() implies table_of(
                            compiled@,
                        )[k] == named(items.take(done + 1))[k] by {
                            if k < done {
                                assert(table_of(sofar)[k] == named(items.take(done))[k]);
                            }
                        }
                        assert(table_of(compiled@) =~= named(items.take(done + 1)));
                        done = done + 1;
                    }
                },
                Err(err) => {
                    proof {
                        assert(!pattern_compiles(items[done].0@));
                    }
                    return Err(err);
                },
            }
        }
        proof {
            assert(items.take(done) =~= items);
        }
        Ok(Config::new(ip, port, docker_path, compiled))
    }

    /// Adds a rule under a pattern. It fails exactly when the pattern is no
    /// valid regular expression. A pattern that stands in the table keeps its
    /// place and gets the new rule; a new one goes to the end, after every
    /// pattern declared before it.
    pub fn add_rule(self, rgx: &str, rule: Rule) -> (added: Result<Self, ConfigParseError>)
        ensures
            added is Ok == pattern_compiles(rgx@),
            added is Ok ==> added->Ok_0.bind_ip() == self.bind_ip() && added->Ok_0.bind_port()
                == self.bind_port() && added->Ok_0.docker() == self.docker()
                && added->Ok_0.entries() == inserted(self.entries(), rgx@, rule),
            added is Err ==> added->Err_0 == ConfigParseError::InvalidRegexRule,
    {
        proof {
            use_type_invariant(&self);
        }
        match UriRegex::from_str(rgx) {
            Ok(key) => {
                let Config { ip, port, docker_path, rules } = self;
                let mut rules = rules;
                insert_entry(&mut rules, key, rule);
                Ok(Config { ip, port, docker_path, rules })
            },
            Err(err) => Err(err),
        }
    }

    /// The address to bind.
    pub fn ip(&self) -> (ip: &str)
        ensures
            ip@ == self.bind_ip(),
    {
        self.ip.as_str()
    }

    /// The port to bind.
    pub fn port(&self) -> (port: u16)
        ensures
            port == self.bind_port(),
    {
        self.port
    }

    /// The place of the cache client.
    pub fn docker_path(&self) -> (path: &str)
        ensures
            path@ == self.docker(),
    {
        self.docker_path.as_str()
    }

    /// The number of rules in the table.
    pub fn len(&self) -> (count: usize)
        ensures
            count == self.entries().len(),
    {
        self.rules.len()
    }

    /// The pattern text and the rule at place `i` of the table, counted from
    /// zero in the order of precedence; nothing from the table's length on.
    pub fn entry(&self, i: usize) -> (entry: Option<(&str, &Rule)>)
        ensures
            entry is Some == (i < self.entries().len()),
            entry matches Some(pair) ==> pair.0@ == self.entries()[i as int].0 && *pair.1
                == self.entries()[i as int].1,
    {
        if i < self.rules.len() {
            Some((self.rules[i].0.as_str(), &self.rules[i].1))
        } else {
            None
        }
    }

    /// Finds the rule that answers for a path: of the rules whose pattern
    /// matches somewhere in the path, the one declared first.
    pub fn get_rule(&self, path: &str) -> (found: Option<&Rule>)
        ensures
            found == match first_match(self.entries(), path@) {
                Some(i) => Some(&self.entries()[i].1),
                None => None,
            },
    {
        let ghost entries = table_of(self.rules@);
        let mut i: usize = 0;
        while i < self.rules.len()
            invariant
                i <= self.rules.len(),
                entries == table_of(self.rules@),
                forall|j: int| 0 <= j < i ==> !matches_at(entries, path@, j),
            decreases self.rules.len() - i,
        {
            if self.rules[i].0.match_url(path) {
                proof {
                    assert(is_first_match(entries, path@, i as int));
                    let chosen = choose|k: int| is_first_match(entries, path@, k);
                    assert(is_first_match(entries, path@, chosen));
                    assert(chosen == i);
                }
                return Some(&self.rules[i].1);
            }
            i = i + 1;
        }
        None
    }
}

impl Default for Config {
    /// The configuration in which nothing was named: the default address,
    /// port and place of the cache client, and no rule.
    fn default() -> (config: Self)
        ensures
            config.bind_ip() == default_ip_text(),
            config.bind_port() == default_port_number(),
            config.docker() == default_docker_path(),
            config.entries() == Seq::<(Seq<char>, Rule)>::empty(),
    {
        let config = Config {
            ip: default_ip(),
            port: default_port(),
            docker_path: default_docker_client(),
            rules: Vec::new(),
        };
        assert(config.entries() =~= Seq::empty());
        config
    }
}

/// A table loads back into itself: where no pattern text stands twice,
/// adding the entries one by one, in their order, to the empty table gives
/// the same patterns with the same rules in the same order.
pub proof fn lemma_reload_is_identity(entries: Seq<(Seq<char>, Rule)>)
    requires
        distinct_patterns(entries),
    ensures
        loaded(entries) == entries,
    decreases entries.len(),
{
    if entries.len() > 0 {
        let front = entries.drop_last();
        assert forall|i: int, j: int| 0 <= i < j < front.len() implies front[i].0 != front[j].0 by {
            assert(entries[i].0 != entries[j].0);
        }
        lemma_reload_is_identity(front);
        assert forall|i: int| !key_at(front, entries.last().0, i) by {
            if 0 <= i < front.len() {
                assert(entries[i].0 != entries[entries.len() - 1].0);
            }
        }
        assert(front.push(entries.last()) =~= entries);
    } else {
        assert(loaded(entries) =~= entries);
    }
}

/// Precedence is by declaration: where an entry matches a path, a rule
/// answers for the path, it stands at or before that entry, and no entry
/// before it matches. Which rule answers is a function of the table and the
/// path, so a path is resolved alike every time.
pub proof fn lemma_first_match_precedes(entries: Seq<(Seq<char>, Rule)>, path: Seq<char>, i: int)
    requires
        matches_at(entries, path, i),
    ensures
        first_match(entries, path) is Some,
        first_match(entries, path)->Some_0 <= i,
        is_first_match(entries, path, first_match(entries, path)->Some_0),
    decreases i,
{
    if exists|j: int| 0 <= j < i && matches_at(entries, path, j) {
        let j = choose|j: int| 0 <= j < i && matches_at(entries, path, j);
        lemma_first_match_precedes(entries, path, j);
    } else {
        assert(is_first_match(entries, path, i));
        let chosen = choose|k: int| is_first_match(entries, path, k);
        assert(is_first_match(entries, path, chosen));
    }
}

/// Adding a rule under a new pattern changes the answer for no path that had
/// one: the new rule stands after every rule declared before it.
pub proof fn lemma_append_keeps_resolution(
    entries: Seq<(Seq<char>, Rule)>,
    pattern: Seq<char>,
    rule: Rule,
    path: Seq<char>,
)
    requires
        position(entries, pattern) is None,
        first_match(entries, path) is Some,
    ensures
        first_match(inserted(entries, pattern, rule), path) == first_match(entries, path),
{
    let after = inserted(entries, pattern, rule);
    let witness = choose|i: int| matches_at(entries, path, i);
    lemma_first_match_precedes(entries, path, witness);
    let k = first_match(entries, path)->Some_0;
    assert(after[k] == entries[k]);
    assert(matches_at(after, path, k));
    assert forall|j: int| 0 <= j < k implies !matches_at(after, path, j) by {
        assert(after[j] == entries[j]);
        assert(!matches_at(entries, path, j));
    }
    assert(is_first_match(after, path, k));
    let chosen = choose|i: int| is_first_match(after, path, i);
    assert(is_first_match(after, path, chosen));
}

/// A path that no pattern matches has no rule.
pub proof fn lemma_no_match_no_rule(entries: Seq<(Seq<char>, Rule)>, path: Seq<char>)
    requires
        forall|i: int| 0 <= i < entries.len() ==> !pattern_matches((#[trigger] entries[i]).0, path),
    ensures
        first_match(entries, path) is None,
{
}

} // verus!
