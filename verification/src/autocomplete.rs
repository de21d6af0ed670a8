use vstd::prelude::*;
use vstd::string::{StrSliceExecFns, StringExecFns};

use crate::json::{json_config_components, json_input_components};
use crate::span::Span;
use crate::strutil::str_eq;

verus! {

/// The Unicode whitespace characters, as `str::split_whitespace` splits
/// on them.
pub open spec fn is_space_char(c: char) -> bool {
    ||| c == '\u{0009}'
    ||| c == '\u{000A}'
    ||| c == '\u{000B}'
    ||| c == '\u{000C}'
    ||| c == '\u{000D}'
    ||| c == ' '
    ||| c == '\u{0085}'
    ||| c == '\u{00A0}'
    ||| c == '\u{1680}'
    ||| c == '\u{2000}'
    ||| c == '\u{2001}'
    ||| c == '\u{2002}'
    ||| c == '\u{2003}'
    ||| c == '\u{2004}'
    ||| c == '\u{2005}'
    ||| c == '\u{2006}'
    ||| c == '\u{2007}'
    ||| c == '\u{2008}'
    ||| c == '\u{2009}'
    ||| c == '\u{200A}'
    ||| c == '\u{2028}'
    ||| c == '\u{2029}'
    ||| c == '\u{202F}'
    ||| c == '\u{205F}'
    ||| c == '\u{3000}'
}

fn is_space(c: char) -> (r: bool)
    ensures
        r == is_space_char(c),
{
    c == '\u{0009}' || c == '\u{000A}' || c == '\u{000B}' || c == '\u{000C}' || c == '\u{000D}'
        || c == ' ' || c == '\u{0085}' || c == '\u{00A0}' || c == '\u{1680}' || c == '\u{2000}'
        || c == '\u{2001}' || c == '\u{2002}' || c == '\u{2003}' || c == '\u{2004}' || c
        == '\u{2005}' || c == '\u{2006}' || c == '\u{2007}' || c == '\u{2008}' || c == '\u{2009}'
        || c == '\u{200A}' || c == '\u{2028}' || c == '\u{2029}' || c == '\u{202F}' || c
        == '\u{205F}' || c == '\u{3000}'
}

/// The whitespace-separated tokens of `s`, runs of whitespace collapsed,
/// no empty tokens.
pub open spec fn split_whitespace_of(s: Seq<char>) -> Seq<Seq<char>>
    decreases s.len(),
{
    if s.len() == 0 {
        Seq::<Seq<char>>::empty()
    } else if is_space_char(s[0]) {
        split_whitespace_of(s.drop_first())
    } else {
        let rest = split_whitespace_of(s.drop_first());
        if s.len() > 1 && !is_space_char(s[1]) {
            seq![seq![s[0]] + rest[0]] + rest.drop_first()
        } else {
            seq![seq![s[0]]] + rest
        }
    }
}

/// Splitting a string whose first token ends at `k` peels off exactly
/// that token.
proof fn lemma_split_whitespace_token(s: Seq<char>, k: int)
    requires
        1 <= k <= s.len(),
        forall|j: int| 0 <= j < k ==> !is_space_char(s[j]),
        k == s.len() || is_space_char(s[k]),
    ensures
        split_whitespace_of(s) == seq![s.subrange(0, k)] + split_whitespace_of(
            s.subrange(k, s.len() as int),
        ),
    decreases s.len(),
{
    let rest = split_whitespace_of(s.drop_first());
    if k == 1 {
        if s.len() == 1 {
            assert(s.drop_first() =~= Seq::<char>::empty());
            assert(s.subrange(0, 1) =~= seq![s[0]]);
            assert(s.subrange(1, s.len() as int) =~= Seq::<char>::empty());
            assert(split_whitespace_of(s) =~= seq![s.subrange(0, 1)] + split_whitespace_of(
                s.subrange(k, s.len() as int),
            ));
        } else {
            assert(is_space_char(s[1]));
            assert(s.drop_first() =~= s.subrange(1, s.len() as int));
            assert(s.subrange(0, 1) =~= seq![s[0]]);
            assert(split_whitespace_of(s) =~= seq![s.subrange(0, 1)] + split_whitespace_of(
                s.subrange(k, s.len() as int),
            ));
        }
    } else {
        assert(!is_space_char(s[1]));
        let tail = s.drop_first();
        lemma_split_whitespace_token(tail, k - 1);
        assert(tail.subrange(0, k - 1) =~= s.subrange(1, k));
        assert(tail.subrange(k - 1, tail.len() as int) =~= s.subrange(k, s.len() as int));
        assert(rest == seq![s.subrange(1, k)] + split_whitespace_of(
            s.subrange(k, s.len() as int),
        ));
        assert(rest[0] == s.subrange(1, k));
        assert(seq![s[0]] + s.subrange(1, k) =~= s.subrange(0, k));
        assert(rest.drop_first() =~= split_whitespace_of(s.subrange(k, s.len() as int)));
        assert(split_whitespace_of(s) =~= seq![s.subrange(0, k)] + split_whitespace_of(
            s.subrange(k, s.len() as int),
        ));
    }
}

/// Split a string on runs of whitespace.
fn split_whitespace_exec(s: &str) -> (r: Vec<String>)
    ensures
        r.deep_view() == split_whitespace_of(s@),
{
    let n = s.unicode_len();
    let mut tokens: Vec<String> = Vec::new();
    let mut i: usize = 0;
    proof {
        assert(s@.subrange(0, n as int) =~= s@);
    }
    while i < n
        invariant
            n == s@.len(),
            0 <= i <= n,
            split_whitespace_of(s@) == tokens.deep_view() + split_whitespace_of(
                s@.subrange(i as int, n as int),
            ),
        decreases n - i,
    {
        let ghost pending = s@.subrange(i as int, n as int);
        if is_space(s.get_char(i)) {
            proof {
                assert(pending.drop_first() =~= s@.subrange(i + 1, n as int));
            }
            i += 1;
        } else {
            let mut j: usize = i + 1;
            while j < n
                invariant
                    i < j <= n,
                    n == s@.len(),
                    forall|t: int| i <= t < j ==> !is_space_char(s@[t]),
                ensures
                    i < j <= n,
                    forall|t: int| i <= t < j ==> !is_space_char(s@[t]),
                    j == n || is_space_char(s@[j as int]),
                decreases n - j,
            {
                if is_space(s.get_char(j)) {
                    break ;
                }
                j += 1;
            }
            let token = s.substring_char(i, j);
            proof {
                assert(forall|t: int| 0 <= t < j - i ==> !is_space_char(pending[t]));
                lemma_split_whitespace_token(pending, j - i);
                assert(pending.subrange(0, j - i) =~= s@.subrange(i as int, j as int));
                assert(pending.subrange(j - i, pending.len() as int) =~= s@.subrange(
                    j as int,
                    n as int,
                ));
            }
            tokens.push(token.to_owned());
            proof {
                assert(tokens.deep_view() =~= tokens.deep_view().subrange(
                    0,
                    tokens.len() - 1,
                ).push(token@));
            }
            i = j;
        }
    }
    proof {
        assert(s@.subrange(n as int, n as int) =~= Seq::<char>::empty());
        assert(tokens.deep_view() + Seq::<Seq<char>>::empty() =~= tokens.deep_view());
    }
    tokens
}

/// The single-token autocomplete values that the attribute may hold.
pub open spec fn is_valid_single_value(t: Seq<char>) -> bool {
    ||| t == "on"@
    ||| t == "name"@
    ||| t == "email"@
    ||| t == "username"@
    ||| t == "new-password"@
    ||| t == "current-password"@
    ||| t == "one-time-code"@
    ||| t == "off"@
    ||| t == "organization-title"@
    ||| t == "organization"@
    ||| t == "street-address"@
    ||| t == "address-line1"@
    ||| t == "address-line2"@
    ||| t == "address-line3"@
    ||| t == "address-level4"@
    ||| t == "address-level3"@
    ||| t == "address-level2"@
    ||| t == "address-level1"@
    ||| t == "country"@
    ||| t == "country-name"@
    ||| t == "postal-code"@
    ||| t == "cc-name"@
    ||| t == "cc-given-name"@
    ||| t == "cc-additional-name"@
    ||| t == "cc-family-name"@
    ||| t == "cc-number"@
    ||| t == "cc-exp"@
    ||| t == "cc-exp-month"@
    ||| t == "cc-exp-year"@
    ||| t == "cc-csc"@
    ||| t == "cc-type"@
    ||| t == "transaction-currency"@
    ||| t == "transaction-amount"@
    ||| t == "language"@
    ||| t == "bday"@
    ||| t == "bday-day"@
    ||| t == "bday-month"@
    ||| t == "bday-year"@
    ||| t == "sex"@
    ||| t == "tel"@
    ||| t == "tel-country-code"@
    ||| t == "tel-national"@
    ||| t == "tel-area-code"@
    ||| t == "tel-local"@
    ||| t == "tel-extension"@
    ||| t == "impp"@
    ||| t == "url"@
    ||| t == "photo"@
    ||| t == "webauthn"@
}

fn is_valid_single(t: &str) -> (r: bool)
    ensures
        r == is_valid_single_value(t@),
{
    str_eq(t, "on") || str_eq(t, "name") || str_eq(t, "email") || str_eq(t, "username") || str_eq(
        t,
        "new-password",
    ) || str_eq(t, "current-password") || str_eq(t, "one-time-code") || str_eq(t, "off") || str_eq(
        t,
        "organization-title",
    ) || str_eq(t, "organization") || str_eq(t, "street-address") || str_eq(t, "address-line1")
        || str_eq(t, "address-line2") || str_eq(t, "address-line3") || str_eq(t, "address-level4")
        || str_eq(t, "address-level3") || str_eq(t, "address-level2") || str_eq(t, "address-level1")
        || str_eq(t, "country") || str_eq(t, "country-name") || str_eq(t, "postal-code") || str_eq(
        t,
        "cc-name",
    ) || str_eq(t, "cc-given-name") || str_eq(t, "cc-additional-name") || str_eq(
        t,
        "cc-family-name",
    ) || str_eq(t, "cc-number") || str_eq(t, "cc-exp") || str_eq(t, "cc-exp-month") || str_eq(
        t,
        "cc-exp-year",
    ) || str_eq(t, "cc-csc") || str_eq(t, "cc-type") || str_eq(t, "transaction-currency") || str_eq(
        t,
        "transaction-amount",
    ) || str_eq(t, "language") || str_eq(t, "bday") || str_eq(t, "bday-day") || str_eq(
        t,
        "bday-month",
    ) || str_eq(t, "bday-year") || str_eq(t, "sex") || str_eq(t, "tel") || str_eq(
        t,
        "tel-country-code",
    ) || str_eq(t, "tel-national") || str_eq(t, "tel-area-code") || str_eq(t, "tel-local")
        || str_eq(t, "tel-extension") || str_eq(t, "impp") || str_eq(t, "url") || str_eq(t, "photo")
        || str_eq(t, "webauthn")
}

/// The address tokens that may follow a `billing` or `shipping` head.
pub open spec fn is_address_suffix(t: Seq<char>) -> bool {
    ||| t == "street-address"@
    ||| t == "address-line1"@
    ||| t == "address-line2"@
    ||| t == "address-line3"@
    ||| t == "address-level4"@
    ||| t == "address-level3"@
    ||| t == "address-level2"@
    ||| t == "address-level1"@
    ||| t == "country"@
    ||| t == "country-name"@
    ||| t == "postal-code"@
}

/// A two-token value is valid exactly when its head is `billing` or
/// `shipping` and its second token is an address token.
pub open spec fn is_valid_combination(head: Seq<char>, tail: Seq<char>) -> bool {
    (head == "billing"@ || head == "shipping"@) && is_address_suffix(tail)
}

fn is_combination(head: &str, tail: &str) -> (r: bool)
    ensures
        r == is_valid_combination(head@, tail@),
{
    (str_eq(head, "billing") || str_eq(head, "shipping")) && (str_eq(tail, "street-address")
        || str_eq(tail, "address-line1") || str_eq(tail, "address-line2") || str_eq(
        tail,
        "address-line3",
    ) || str_eq(tail, "address-level4") || str_eq(tail, "address-level3") || str_eq(
        tail,
        "address-level2",
    ) || str_eq(tail, "address-level1") || str_eq(tail, "country") || str_eq(tail, "country-name")
        || str_eq(tail, "postal-code"))
}

/// Validity of a whole attribute value: one token from the single-value
/// set, or a valid two-token combination; anything else is invalid.
pub open spec fn spec_is_valid_autocomplete_value(v: Seq<char>) -> bool {
    let parts = split_whitespace_of(v);
    if parts.len() == 1 {
        is_valid_single_value(parts[0])
    } else if parts.len() == 2 {
        is_valid_combination(parts[0], parts[1])
    } else {
        false
    }
}

/// Whether `value` is a valid `autocomplete` attribute value.
pub fn is_valid_autocomplete_value(value: &str) -> (r: bool)
    ensures
        r == spec_is_valid_autocomplete_value(value@),
{
    let parts = split_whitespace_exec(value);
    proof {
        if parts.len() >= 1 {
            assert(parts.deep_view()[0] == parts[0]@);
        }
        if parts.len() >= 2 {
            assert(parts.deep_view()[1] == parts[1]@);
        }
    }
    if parts.len() == 1 {
        is_valid_single(parts[0].as_str())
    } else if parts.len() == 2 {
        is_combination(parts[0].as_str(), parts[1].as_str())
    } else {
        false
    }
}

/// The names of the element types the rule inspects.
#[derive(Debug, Clone, PartialEq, Eq)]
pub struct AutocompleteValidConfig {
    input_components: Vec<String>,
}

impl DeepView for AutocompleteValidConfig {
    type V = Seq<Seq<char>>;

    closed spec fn deep_view(&self) -> Seq<Seq<char>> {
        self.input_components.deep_view()
    }
}

impl AutocompleteValidConfig {
    /// The configured component names, in order.
    pub fn components(&self) -> (r: &Vec<String>)
        ensures
            r.deep_view() == self.deep_view(),
    {
        &self.input_components
    }
}

impl Default for AutocompleteValidConfig {
    /// The rule inspects plain `input` elements when nothing is
    /// configured.
    fn default() -> (r: Self)
        ensures
            r.deep_view() == seq!["input"@],
    {
        let r = AutocompleteValidConfig { input_components: vec![String::from_str("input")] };
        proof {
            assert(r.deep_view() =~= seq!["input"@]);
        }
        r
    }
}

/// The value of an `autocomplete` attribute as the rule sees it.
pub enum JsxAttributeValue {
    /// A plain string literal.
    StringLiteral(String),
    /// Any other expression; the rule cannot judge it and stands down.
    Other,
}

/// An attribute found under the (lowercased) name `autocomplete`.
pub enum JsxAttributeItem {
    Attribute(JsxAttribute),
    SpreadAttribute,
}

pub struct JsxAttribute {
    pub span: Span,
    pub value: Option<JsxAttributeValue>,
}

/// An opening element as the rule consumes it: its resolved type name and
/// its `autocomplete` attribute, if it carries one.
pub struct JsxOpeningElement {
    pub name: String,
    pub autocomplete: Option<JsxAttributeItem>,
}

/// A report for one element whose `autocomplete` value is invalid.
#[derive(Debug, Clone, PartialEq, Eq)]
pub struct AutocompleteDiagnostic {
    pub span: Span,
    pub autocomplete: String,
}

/// What the rule decides for one element: the attribute's span and the
/// offending value exactly when the element is one of the configured
/// components, carries a literal `autocomplete` value, and that value is
/// invalid.
pub open spec fn spec_run(components: Seq<Seq<char>>, el: JsxOpeningElement) -> Option<
    (Span, Seq<char>),
> {
    if !components.contains(el.name@) {
        None
    } else {
        match el.autocomplete {
            Some(JsxAttributeItem::Attribute(attr)) => match attr.value {
                Some(JsxAttributeValue::StringLiteral(lit)) => if !spec_is_valid_autocomplete_value(
                    lit@,
                ) {
                    Some((attr.span, lit@))
                } else {
                    None
                },
                _ => None,
            },
            _ => None,
        }
    }
}

/// Enforces that an element's `autocomplete` attribute holds a valid
/// value.
#[derive(Debug, Clone)]
pub struct AutocompleteValid(Box<AutocompleteValidConfig>);

impl DeepView for AutocompleteValid {
    type V = Seq<Seq<char>>;

    closed spec fn deep_view(&self) -> Seq<Seq<char>> {
        self.0.deep_view()
    }
}

impl Default for AutocompleteValid {
    fn default() -> (r: Self)
        ensures
            r.deep_view() == seq!["input"@],
    {
        AutocompleteValid(Box::new(AutocompleteValidConfig::default()))
    }
}

/// The component names kept from a configured entry list: the string
/// entries, in order.
pub open spec fn filtered_components(entries: Seq<Option<Seq<char>>>) -> Seq<Seq<char>>
    decreases entries.len(),
{
    if entries.len() == 0 {
        Seq::<Seq<char>>::empty()
    } else {
        let prefix = filtered_components(entries.drop_last());
        match entries.last() {
            Some(c) => prefix.push(c),
            None => prefix,
        }
    }
}

/// The component names a configuration document yields: the strings of
/// its `inputComponents` array — or the one default name when it has
/// none — and the default name once more behind them.
pub open spec fn spec_components_of(cfg: Option<Seq<Option<Seq<char>>>>) -> Seq<Seq<char>> {
    (match cfg {
        Some(entries) => filtered_components(entries),
        None => seq!["input"@],
    }).push("input"@)
}

impl AutocompleteValid {
    /// The configuration the rule runs with.
    pub fn config(&self) -> (r: &AutocompleteValidConfig)
        ensures
            r.deep_view() == self.deep_view(),
    {
        &self.0
    }

    /// Read the configured component names out of a rule-configuration
    /// document.
    pub fn from_configuration(value: serde_json::Value) -> (r: Self)
        ensures
            r.deep_view() == spec_components_of(json_config_components(value)),
    {
        let mut input_components: Vec<String> = Vec::new();
        match json_input_components(&value) {
            Some(entries) => {
                let mut j: usize = 0;
                proof {
                    assert(entries.deep_view().subrange(0, 0) =~= Seq::<Option<Seq<char>>>::empty());
                    assert(input_components.deep_view() =~= Seq::<Seq<char>>::empty());
                }
                while j < entries.len()
                    invariant
                        0 <= j <= entries.len(),
                        entries.deep_view().len() == entries.len(),
                        input_components.deep_view() == filtered_components(
                            entries.deep_view().subrange(0, j as int),
                        ),
                    decreases entries.len() - j,
                {
                    let ghost prefix1 = entries.deep_view().subrange(0, j + 1);
                    proof {
                        assert(prefix1.drop_last() =~= entries.deep_view().subrange(0, j as int));
                        assert(prefix1.last() == entries.deep_view()[j as int]);
                        assert(entries.deep_view()[j as int] == entries[j as int].deep_view());
                    }
                    match &entries[j] {
                        Some(component) => {
                            input_components.push(component.clone());
                            proof {
                                assert(input_components.deep_view()
                                    =~= input_components.deep_view().subrange(
                                    0,
                                    input_components.len() - 1,
                                ).push(component@));
                            }
                        },
                        None => {},
                    }
                    j += 1;
                }
                proof {
                    assert(entries.deep_view().subrange(0, entries.len() as int) =~= entries.deep_view());
                }
            },
            None => {
                input_components.push(String::from_str("input"));
                proof {
                    assert(input_components.deep_view() =~= seq!["input"@]);
                }
            },
        }
        let ghost base = input_components.deep_view();
        input_components.push(String::from_str("input"));
        proof {
            assert(input_components.deep_view() =~= base.push("input"@));
        }
        AutocompleteValid(Box::new(AutocompleteValidConfig { input_components }))
    }

    fn contains_component(&self, name: &str) -> (r: bool)
        ensures
            r == self.deep_view().contains(name@),
    {
        let components = &self.0.input_components;
        proof {
            assert(self.deep_view() == components.deep_view());
        }
        let mut i: usize = 0;
        while i < components.len()
            invariant
                0 <= i <= components.len(),
                self.deep_view() == components.deep_view(),
                components.deep_view().len() == components.len(),
                forall|j: int| 0 <= j < i ==> components.deep_view()[j] != name@,
            decreases components.len() - i,
        {
            proof {
                assert(components.deep_view()[i as int] == components[i as int]@);
            }
            if str_eq(components[i].as_str(), name) {
                proof {
                    assert(self.deep_view()[i as int] == name@);
                }
                return true;
            }
            i += 1;
        }
        false
    }

    /// Judge one opening element; report the attribute's span and its
    /// offending value exactly when the value is an invalid literal on a
    /// configured component.
    pub fn run(&self, node: &JsxOpeningElement) -> (r: Option<AutocompleteDiagnostic>)
        ensures
            match (r, spec_run(self.deep_view(), *node)) {
                (Some(d), Some(expected)) => d.span == expected.0 && d.autocomplete@ == expected.1,
                (None, None) => true,
                _ => false,
            },
    {
        if !self.contains_component(node.name.as_str()) {
            return None;
        }
        let attr = match &node.autocomplete {
            Some(JsxAttributeItem::Attribute(attr)) => attr,
            _ => {
                return None;
            },
        };
        let lit = match &attr.value {
            Some(JsxAttributeValue::StringLiteral(lit)) => lit,
            _ => {
                return None;
            },
        };
        if !is_valid_autocomplete_value(lit.as_str()) {
            Some(AutocompleteDiagnostic { span: attr.span, autocomplete: lit.clone() })
        } else {
            None
        }
    }
}

} // verus!
