use crate::config::json::Json;
use vstd::prelude::*;
use vstd::string::*;

verus! {

/// The texts of a sequence of strings.
pub open spec fn texts(items: Seq<String>) -> Seq<Seq<char>> {
    Seq::new(items.len(), |i: int| items[i]@)
}

/// All the parts in order, one behind the other, with nothing between them.
pub open spec fn concat_all(parts: Seq<Seq<char>>) -> Seq<char>
    decreases parts.len(),
{
    if parts.len() == 0 {
        Seq::empty()
    } else {
        concat_all(parts.drop_last()) + parts.last()
    }
}

/// The time-to-live of a rule that names none, in milliseconds: one day.
pub open spec fn default_ttl_millis() -> int {
    86_400_000
}

/// The text of the payload that the default action sends for a new fingerprint.
pub open spec fn default_success_text() -> Seq<char> {
    "{\"message\":\"Idempotency guaranteed uniqueness.\",\"status\":\"success\"}"@
}

/// The text of the payload that the default action sends for a repeated fingerprint.
pub open spec fn default_failure_text() -> Seq<char> {
    "{\"message\":\"Idempotency guarantee failed.\",\"status\":\"failed\"}"@
}

/// The action of a rule that names none: respond, with the generic pair of
/// payloads.
pub open spec fn default_action() -> RuleActionView {
    RuleActionView::Respond { success: default_success_text(), failure: default_failure_text() }
}

/// The selector set that selects nothing.
pub open spec fn no_fields() -> RuleFieldsView {
    RuleFieldsView { body: None, query: None, header: None }
}

/// The tag that opens the body section of a key.
pub open spec fn body_tag() -> Seq<char> {
    "body::"@
}

/// The tag that opens the query section of a key.
pub open spec fn query_tag() -> Seq<char> {
    "query::"@
}

/// The tag that opens the header section of a key.
pub open spec fn header_tag() -> Seq<char> {
    "header::"@
}

/// What closes a section of names, and every value of a fingerprint.
pub open spec fn separator() -> Seq<char> {
    ","@
}

/// The field names that make up a fingerprint, by the part of the request in
/// which each is looked up. The order within a list is kept as configured.
#[derive(Debug, Clone, PartialEq, Eq)]
pub struct RuleFields {
    pub body: Option<Vec<String>>,
    pub query: Option<Vec<String>>,
    pub header: Option<Vec<String>>,
}

/// A selector set as plain sequences of names.
pub ghost struct RuleFieldsView {
    pub body: Option<Seq<Seq<char>>>,
    pub query: Option<Seq<Seq<char>>>,
    pub header: Option<Seq<Seq<char>>>,
}

/// The names of one selector list, if the list is there.
pub open spec fn selector_view(list: Option<Vec<String>>) -> Option<Seq<Seq<char>>> {
    match list {
        Some(names) => Some(texts(names@)),
        None => None,
    }
}

impl View for RuleFields {
    type V = RuleFieldsView;

    open spec fn view(&self) -> RuleFieldsView {
        RuleFieldsView {
            body: selector_view(self.body),
            query: selector_view(self.query),
            header: selector_view(self.header),
        }
    }
}

/// What a rule does with a request, depending on whether its fingerprint is new.
#[derive(Debug, Clone, PartialEq, Eq)]
pub enum RuleAction {
    /// A new fingerprint is forwarded to `uri`; a repeated one is refused.
    Redirect { uri: String },
    /// A new fingerprint is answered with `success`, a repeated one with `failure`.
    Respond { success: Json, failure: Json },
}

/// An action as plain texts.
pub ghost enum RuleActionView {
    Redirect { uri: Seq<char> },
    Respond { success: Seq<char>, failure: Seq<char> },
}

impl View for RuleAction {
    type V = RuleActionView;

    open spec fn view(&self) -> RuleActionView {
        match self {
            RuleAction::Redirect { uri } => RuleActionView::Redirect { uri: uri@ },
            RuleAction::Respond { success, failure } => RuleActionView::Respond {
                success: success@,
                failure: failure@,
            },
        }
    }
}

/// One rule: how long a fingerprint is remembered, which fields make it up,
/// and what is done with the request.
#[derive(Debug, Clone, PartialEq, Eq)]
pub struct Rule {
    /// Time-to-live of a fingerprint, in milliseconds.
    pub ttl: usize,
    pub fields: RuleFields,
    pub action: RuleAction,
}

/// A rule as plain values.
pub ghost struct RuleView {
    pub ttl: int,
    pub fields: RuleFieldsView,
    pub action: RuleActionView,
}

impl View for Rule {
    type V = RuleView;

    open spec fn view(&self) -> RuleView {
        RuleView { ttl: self.ttl as int, fields: self.fields@, action: self.action@ }
    }
}

/// Returns the time-to-live that a rule gets when it names none.
pub fn default_ttl() -> (ttl: usize)
    ensures
        ttl == default_ttl_millis(),
{
    86_400_000
}

impl Default for RuleFields {
    /// The empty selector set: no list is there.
    fn default() -> (fields: Self)
        ensures
            fields@ == no_fields(),
    {
        RuleFields { body: None, query: None, header: None }
    }
}

impl Default for RuleAction {
    /// The action of a rule that names none: respond, with a generic pair of
    /// payloads.
    fn default() -> (action: Self)
        ensures
            action@ == default_action(),
    {
        RuleAction::Respond {
            success: Json::new(
                String::from_str(
                    "{\"message\":\"Idempotency guaranteed uniqueness.\",\"status\":\"success\"}",
                ),
            ),
            failure: Json::new(
                String::from_str(
                    "{\"message\":\"Idempotency guarantee failed.\",\"status\":\"failed\"}",
                ),
            ),
        }
    }
}

impl Rule {
    /// Builds a rule from what a configuration names: a missing time-to-live
    /// becomes one day, a missing action the default action.
    pub fn new(ttl: Option<usize>, fields: RuleFields, action: Option<RuleAction>) -> (rule: Self)
        ensures
            rule.ttl == match ttl {
                Some(millis) => millis as int,
                None => default_ttl_millis(),
            },
            rule.fields == fields,
            rule.action@ == match action {
                Some(named) => named@,
                None => default_action(),
            },
    {
        Rule {
            ttl: match ttl {
                Some(millis) => millis,
                None => default_ttl(),
            },
            fields,
            action: match action {
                Some(named) => named,
                None => RuleAction::default(),
            },
        }
    }
}

impl Default for Rule {
    /// The rule in which nothing was named: one day, no fields, the default
    /// action.
    fn default() -> (rule: Self)
        ensures
            rule@ == (RuleView {
                ttl: default_ttl_millis(),
                fields: no_fields(),
                action: default_action(),
            }),
    {
        Rule { ttl: default_ttl(), fields: RuleFields::default(), action: RuleAction::default() }
    }
}

/// The text of one section of a selector set: nothing where the list is
/// missing, else the tag, the names one behind the other, and the separator.
pub open spec fn names_section(tag: Seq<char>, list: Option<Seq<Seq<char>>>) -> Seq<char> {
    match list {
        Some(names) => tag + concat_all(names) + separator(),
        None => Seq::empty(),
    }
}

/// A value that has a text form.
pub trait Stringify {
    /// The text form.
    spec fn stringified(&self) -> Seq<char>;

    /// Writes the text form out.
    fn stringify(&self) -> (text: String)
        ensures
            text@ == self.stringified(),
    ;
}

impl Stringify for Vec<String> {
    open spec fn stringified(&self) -> Seq<char> {
        concat_all(texts(self@))
    }

    /// The strings one behind the other, with nothing between them.
    fn stringify(&self) -> (text: String) {
        let mut text = String::new();
        let mut i: usize = 0;
        while i < self.len()
            invariant
                i <= self.len(),
                text@ == concat_all(texts(self@).take(i as int)),
            decreases self.len() - i,
        {
            proof {
                let all = texts(self@);
                assert(all.take(i + 1).drop_last() =~= all.take(i as int));
                assert(all.take(i + 1).last() == self@[i as int]@);
            }
            text.append(self[i].as_str());
            i = i + 1;
        }
        proof {
            assert(texts(self@).take(i as int) =~= texts(self@));
        }
        text
    }
}

/// Appends one section of a selector set to `text`.
fn push_names_section(text: &mut String, tag: &str, list: &Option<Vec<String>>)
    ensures
        final(text)@ == old(text)@ + names_section(tag@, selector_view(*list)),
{
    match list {
        Some(names) => {
            let joined = names.stringify();
            text.append(tag);
            text.append(joined.as_str());
            text.append(",");
            assert(text@ =~= old(text)@ + (tag@ + concat_all(texts(names@)) + separator()));
        },
        None => {
            assert(text@ =~= old(text)@ + Seq::<char>::empty());
        },
    }
}

impl Stringify for RuleFields {
    /// The selector set itself as a text: the sections for body, query and
    /// header in this order. It holds names, never a request's values, so it
    /// tells rules apart and not requests; a request's key is its fingerprint.
    open spec fn stringified(&self) -> Seq<char> {
        names_section(body_tag(), self@.body) + names_section(query_tag(), self@.query)
            + names_section(header_tag(), self@.header)
    }

    fn stringify(&self) -> (text: String) {
        let mut key = String::new();
        push_names_section(&mut key, "body::", &self.body);
        push_names_section(&mut key, "query::", &self.query);
        push_names_section(&mut key, "header::", &self.header);
        assert(key@ =~= self.stringified());
        key
    }
}

} // verus!
