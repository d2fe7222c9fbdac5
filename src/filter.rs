//! Textual `$filter` expressions for an OData-style query API.
//!
//! An expression is a chain of `key+op+value` conditions joined by `and` / `or`,
//! optionally grouped in parentheses. Values are quoted by kind: plain strings as
//! `'value'`, identifiers as `guid'value'`.

use vstd::prelude::*;
use vstd::string::*;

verus! {

/// The two-letter token of a comparison.
pub open spec fn op_token(op: FilterOp) -> Seq<char> {
    match op {
        FilterOp::Equals => seq!['e', 'q'],
        FilterOp::NotEqual => seq!['n', 'e'],
        FilterOp::GreaterThan => seq!['g', 't'],
        FilterOp::GreatherThanEquals => seq!['g', 'e'],
        FilterOp::LessThan => seq!['l', 't'],
        FilterOp::LessThanEquals => seq!['l', 'e'],
    }
}

/// `'text'`: a plain value in single quotes.
pub open spec fn quoted(text: Seq<char>) -> Seq<char> {
    seq!['\''] + text + seq!['\'']
}

/// `guid'text'`: an identifier value.
pub open spec fn guid_quoted(text: Seq<char>) -> Seq<char> {
    seq!['g', 'u', 'i', 'd'] + quoted(text)
}

/// One condition: `key+op+value`, with `value` already serialized.
pub open spec fn condition(key: Seq<char>, op: FilterOp, value: Seq<char>) -> Seq<char> {
    key + seq!['+'] + op_token(op) + seq!['+'] + value
}

/// `expr+connective+cond`: a condition appended with `and` or `or`.
pub open spec fn chained(expr: Seq<char>, connective: Seq<char>, cond: Seq<char>) -> Seq<char> {
    expr + seq!['+'] + connective + seq!['+'] + cond
}

/// `(left+connective+right)`: two expressions grouped in one pair of parentheses.
pub open spec fn grouped(left: Seq<char>, connective: Seq<char>, right: Seq<char>) -> Seq<char> {
    seq!['('] + chained(left, connective, right) + seq![')']
}

/// Change of nesting depth by one character: `(` opens, `)` closes.
pub open spec fn paren_step(c: char) -> int {
    if c == '(' {
        1
    } else if c == ')' {
        -1
    } else {
        0
    }
}

/// Nesting depth after the whole text: opened minus closed parentheses.
pub open spec fn balance(s: Seq<char>) -> int
    decreases s.len(),
{
    if s.len() == 0 {
        0
    } else {
        balance(s.drop_last()) + paren_step(s.last())
    }
}

/// The text is one parenthesized group: it starts with `(`, ends with `)`, and
/// the depth opened by the first character first returns to zero at the last.
pub open spec fn fully_parenthesized(s: Seq<char>) -> bool {
    &&& s.len() >= 2
    &&& s[0] == '('
    &&& s[s.len() - 1] == ')'
    &&& balance(s) == 0
    &&& forall|k: int| 1 <= k < s.len() ==> #[trigger] balance(s.take(k)) > 0
}

/// Every prefix has a nonnegative depth and the whole text a depth of zero.
pub open spec fn well_nested(s: Seq<char>) -> bool {
    &&& balance(s) == 0
    &&& forall|k: int| 0 <= k <= s.len() ==> #[trigger] balance(s.take(k)) >= 0
}

/// The expression with its outer pair of parentheses removed when the whole
/// expression is one parenthesized group; otherwise unchanged.
pub open spec fn stripped(s: Seq<char>) -> Seq<char> {
    if fully_parenthesized(s) {
        s.subrange(1, s.len() - 1)
    } else {
        s
    }
}

/// `name(key, argument)`: a key wrapped in a string function.
pub open spec fn applied(name: Seq<char>, key: Seq<char>, argument: Seq<char>) -> Seq<char> {
    name + seq!['('] + key + seq![',', ' '] + argument + seq![')']
}

pub open spec fn and_word() -> Seq<char> {
    seq!['a', 'n', 'd']
}

pub open spec fn or_word() -> Seq<char> {
    seq!['o', 'r']
}

/// Comparison operators of a condition.
#[derive(Debug)]
pub enum FilterOp {
    Equals,
    NotEqual,
    GreaterThan,
    GreatherThanEquals,
    LessThan,
    LessThanEquals,
}

impl FilterOp {
    pub fn serialize(&self) -> (r: &'static str)
        ensures
            r@ == op_token(*self),
    {
        proof {
            reveal_strlit("eq");
            reveal_strlit("ne");
            reveal_strlit("gt");
            reveal_strlit("ge");
            reveal_strlit("lt");
            reveal_strlit("le");
        }
        match self {
            FilterOp::Equals => "eq",
            FilterOp::NotEqual => "ne",
            FilterOp::GreaterThan => "gt",
            FilterOp::GreatherThanEquals => "ge",
            FilterOp::LessThan => "lt",
            FilterOp::LessThanEquals => "le",
        }
    }
}

/// A value that can stand on the right of a condition.
pub trait FilterValue {
    /// The text this value contributes to an expression.
    spec fn serialized(&self) -> Seq<char>;

    /// Every serialized value ends with its closing quote.
    proof fn lemma_ends_with_quote(&self)
        ensures
            self.serialized().len() >= 2,
            self.serialized()[self.serialized().len() - 1] == '\'',
    ;

    fn serialize(&self) -> (r: String)
        ensures
            r@ == self.serialized(),
    ;
}

/// Builds `'text'`.
fn quote(text: &str) -> (r: String)
    ensures
        r@ == quoted(text@),
{
    proof {
        reveal_strlit("'");
    }
    let mut r = String::from_str("'");
    r.append(text);
    r.append("'");
    r
}

impl FilterValue for String {
    open spec fn serialized(&self) -> Seq<char> {
        quoted(self@)
    }

    proof fn lemma_ends_with_quote(&self) {
    }

    fn serialize(&self) -> (r: String) {
        quote(self.as_str())
    }
}

impl<'a> FilterValue for &'a str {
    open spec fn serialized(&self) -> Seq<char> {
        quoted((*self)@)
    }

    proof fn lemma_ends_with_quote(&self) {
    }

    fn serialize(&self) -> (r: String) {
        quote(*self)
    }
}

impl<'a, T: FilterValue> FilterValue for &'a T {
    open spec fn serialized(&self) -> Seq<char> {
        (**self).serialized()
    }

    proof fn lemma_ends_with_quote(&self) {
        (**self).lemma_ends_with_quote();
    }

    fn serialize(&self) -> (r: String) {
        (**self).serialize()
    }
}

/// An opaque identifier, serialized as `guid'value'` without escaping.
#[derive(Debug)]
pub struct Guid(String);

impl View for Guid {
    type V = Seq<char>;

    closed spec fn view(&self) -> Seq<char> {
        self.0@
    }
}

impl Guid {
    pub fn new(guid: &str) -> (r: Self)
        ensures
            r@ == guid@,
    {
        Guid(String::from_str(guid))
    }

    /// The identifier itself.
    pub fn as_str(&self) -> (r: &str)
        ensures
            r@ == self@,
    {
        self.0.as_str()
    }

    /// The serialized form, `guid'value'`.
    pub fn to_string(&self) -> (r: String)
        ensures
            r@ == guid_quoted(self@),
    {
        proof {
            reveal_strlit("guid'");
            reveal_strlit("'");
        }
        let mut r = String::from_str("guid'");
        r.append(self.0.as_str());
        r.append("'");
        r
    }
}

impl FilterValue for Guid {
    open spec fn serialized(&self) -> Seq<char> {
        guid_quoted(self@)
    }

    proof fn lemma_ends_with_quote(&self) {
    }

    fn serialize(&self) -> (r: String) {
        self.to_string()
    }
}

/// A boolean shown as `true` or `false`.
#[derive(Debug)]
pub struct Bool(pub bool);

impl Bool {
    pub fn to_string(&self) -> (r: String)
        ensures
            r@ == (if self.0 {
                seq!['t', 'r', 'u', 'e']
            } else {
                seq!['f', 'a', 'l', 's', 'e']
            }),
    {
        proof {
            reveal_strlit("true");
            reveal_strlit("false");
        }
        if self.0 {
            String::from_str("true")
        } else {
            String::from_str("false")
        }
    }
}

/// String functions that can wrap the key of a condition.
#[derive(Debug)]
pub enum FilterFunction {
    EndsWith(String),
    StartsWith(String),
    SubstringOf(String),
}

impl FilterFunction {
    pub open spec fn name(self) -> Seq<char> {
        match self {
            FilterFunction::EndsWith(_) => seq!['e', 'n', 'd', 's', 'w', 'i', 't', 'h'],
            FilterFunction::StartsWith(_) => seq!['s', 't', 'a', 'r', 't', 's', 'w', 'i', 't', 'h'],
            FilterFunction::SubstringOf(_) => seq![
                's',
                'u',
                'b',
                's',
                't',
                'r',
                'i',
                'n',
                'g',
                'o',
                'f',
            ],
        }
    }

    pub open spec fn argument(self) -> Seq<char> {
        match self {
            FilterFunction::EndsWith(v) => v@,
            FilterFunction::StartsWith(v) => v@,
            FilterFunction::SubstringOf(v) => v@,
        }
    }

    /// `name(key, argument)`.
    pub fn apply(self, to: &str) -> (r: String)
        ensures
            r@ == applied(self.name(), to@, self.argument()),
    {
        proof {
            reveal_strlit("endswith(");
            reveal_strlit("startswith(");
            reveal_strlit("substringof(");
            reveal_strlit(", ");
            reveal_strlit(")");
        }
        let (mut r, argument) = match self {
            FilterFunction::EndsWith(v) => (String::from_str("endswith("), v),
            FilterFunction::StartsWith(v) => (String::from_str("startswith("), v),
            FilterFunction::SubstringOf(v) => (String::from_str("substringof("), v),
        };
        r.append(to);
        r.append(", ");
        r.append(argument.as_str());
        r.append(")");
        r
    }
}

/// A filter expression under construction.
#[derive(Debug)]
pub struct Filter(String);

impl View for Filter {
    type V = Seq<char>;

    closed spec fn view(&self) -> Seq<char> {
        self.0@
    }
}

impl Filter {
    /// `key+op+value`.
    fn format_filter_string<V: FilterValue>(key: &str, value: V, op: FilterOp) -> (r: String)
        ensures
            r@ == condition(key@, op, value.serialized()),
    {
        proof {
            reveal_strlit("+");
        }
        let mut r = String::from_str(key);
        r.append("+");
        r.append(op.serialize());
        r.append("+");
        let v = value.serialize();
        r.append(v.as_str());
        r
    }

    /// A filter holding the single condition `key+op+value`.
    pub fn new<V: FilterValue>(key: &str, value: V, op: FilterOp) -> (r: Self)
        ensures
            r@ == condition(key@, op, value.serialized()),
    {
        Filter(Self::format_filter_string(key, value, op))
    }

    /// Appends `+f(key, argument)+op+value`.
    pub fn function<V: FilterValue>(self, key: &str, f: FilterFunction, op: FilterOp, value: V) -> (r: Self)
        ensures
            r@ == self@ + seq!['+'] + condition(
                applied(f.name(), key@, f.argument()),
                op,
                value.serialized(),
            ),
    {
        proof {
            reveal_strlit("+");
        }
        let wrapped = f.apply(key);
        let cond = Self::format_filter_string(wrapped.as_str(), value, op);
        let mut s = self.0;
        s.append("+");
        s.append(cond.as_str());
        Filter(s)
    }

    fn push_operation<V: FilterValue>(&mut self, name: &str, key: &str, value: V, op: FilterOp)
        ensures
            final(self)@ == chained(old(self)@, name@, condition(key@, op, value.serialized())),
    {
        proof {
            reveal_strlit("+");
        }
        let cond = Self::format_filter_string(key, value, op);
        self.0.append("+");
        self.0.append(name);
        self.0.append("+");
        self.0.append(cond.as_str());
    }

    /// Appends `+and+key+op+value`.
    pub fn and<V: FilterValue>(self, key: &str, value: V, op: FilterOp) -> (r: Self)
        ensures
            r@ == chained(self@, and_word(), condition(key@, op, value.serialized())),
    {
        proof {
            reveal_strlit("and");
        }
        let mut f = self;
        f.push_operation("and", key, value, op);
        f
    }

    /// Appends `+or+key+op+value`.
    pub fn or<V: FilterValue>(self, key: &str, value: V, op: FilterOp) -> (r: Self)
        ensures
            r@ == chained(self@, or_word(), condition(key@, op, value.serialized())),
    {
        proof {
            reveal_strlit("or");
        }
        let mut f = self;
        f.push_operation("or", key, value, op);
        f
    }

    fn join(&mut self, other: &Self, op: &str)
        ensures
            final(self)@ == grouped(old(self)@, op@, other@),
    {
        proof {
            reveal_strlit("(");
            reveal_strlit("+");
            reveal_strlit(")");
        }
        let mut s = String::from_str("(");
        s.append(self.0.as_str());
        s.append("+");
        s.append(op);
        s.append("+");
        s.append(other.0.as_str());
        s.append(")");
        self.0 = s;
    }

    /// `(self+and+other)`.
    pub fn join_and(self, other: &Self) -> (r: Self)
        ensures
            r@ == grouped(self@, and_word(), other@),
    {
        proof {
            reveal_strlit("and");
        }
        let mut f = self;
        f.join(other, "and");
        f
    }

    /// `(self+or+other)`.
    pub fn join_or(self, other: &Self) -> (r: Self)
        ensures
            r@ == grouped(self@, or_word(), other@),
    {
        proof {
            reveal_strlit("or");
        }
        let mut f = self;
        f.join(other, "or");
        f
    }

    /// The finished expression, without a redundant outer pair of parentheses.
    pub fn finalize(self) -> (r: String)
        ensures
            r@ == stripped(self@),
    {
        let s = self.0.as_str();
        let n = s.unicode_len();
        if n >= 2 && s.get_char(0) == '(' && s.get_char(n - 1) == ')' {
            let ghost t = s@;
            proof {
                reveal_with_fuel(balance, 2);
                assert(t.take(1).drop_last() =~= Seq::<char>::empty());
                assert(t.take(1).last() == t[0]);
            }
            let mut depth: usize = 1;
            let mut i: usize = 1;
            while i < n - 1 && depth > 0
                invariant
                    t == s@,
                    n == t.len(),
                    n >= 2,
                    1 <= i <= n - 1,
                    depth <= i,
                    depth == balance(t.take(i as int)),
                    forall|k: int| 1 <= k < i ==> #[trigger] balance(t.take(k)) > 0,
                decreases n - i,
            {
                let c = s.get_char(i);
                let ghost prefix = t.take(i as int + 1);
                assert(prefix.drop_last() =~= t.take(i as int));
                if c == '(' {
                    depth = depth + 1;
                } else if c == ')' {
                    depth = depth - 1;
                }
                i = i + 1;
            }
            if depth == 1 {
                proof {
                    assert(i == n - 1);
                    assert(t.drop_last() =~= t.take(i as int));
                    assert forall|k: int| 1 <= k < t.len() implies #[trigger] balance(t.take(k)) > 0 by {
                        if k == i {
                        }
                    }
                    assert(t.take(n as int) =~= t);
                }
                return String::from_str(s.substring_char(1, n - 1));
            }
            proof {
                if depth == 0 {
                    assert(balance(t.take(i as int)) == 0);
                } else {
                    assert(i == n - 1);
                    assert(t.drop_last() =~= t.take(i as int));
                    assert(balance(t) == depth - 1);
                }
                assert(!fully_parenthesized(t));
            }
        }
        String::from_str(s)
    }
}

/// A single condition, finalized, is the condition itself: no serialized value
/// ends with a parenthesis.
pub proof fn lemma_condition_finalizes_to_itself<V: FilterValue>(key: Seq<char>, op: FilterOp, value: V)
    ensures
        stripped(condition(key, op, value.serialized())) == condition(key, op, value.serialized()),
{
    value.lemma_ends_with_quote();
    let c = condition(key, op, value.serialized());
    assert(c[c.len() - 1] == value.serialized()[value.serialized().len() - 1]);
}

/// Appending a condition with `and` / `or` inserts the connective between the
/// expression and the condition, and the result finalizes to itself.
pub proof fn lemma_chain_finalizes_to_itself<V: FilterValue>(
    expr: Seq<char>,
    connective: Seq<char>,
    key: Seq<char>,
    op: FilterOp,
    value: V,
)
    ensures
        ({
            let c = chained(expr, connective, condition(key, op, value.serialized()));
            stripped(c) == c
        }),
{
    value.lemma_ends_with_quote();
    let cond = condition(key, op, value.serialized());
    let c = chained(expr, connective, cond);
    assert(c[c.len() - 1] == value.serialized()[value.serialized().len() - 1]);
}

proof fn lemma_balance_concat(a: Seq<char>, b: Seq<char>)
    ensures
        balance(a + b) == balance(a) + balance(b),
    decreases b.len(),
{
    if b.len() == 0 {
        assert(a + b =~= a);
    } else {
        assert((a + b).drop_last() =~= a + b.drop_last());
        lemma_balance_concat(a, b.drop_last());
    }
}

proof fn lemma_no_parens_prefixes(m: Seq<char>)
    requires
        forall|i: int| 0 <= i < m.len() ==> m[i] != '(' && m[i] != ')',
    ensures
        forall|k: int| 0 <= k <= m.len() ==> #[trigger] balance(m.take(k)) == 0,
    decreases m.len(),
{
    if m.len() > 0 {
        let d = m.drop_last();
        lemma_no_parens_prefixes(d);
        assert forall|k: int| 0 <= k <= m.len() implies #[trigger] balance(m.take(k)) == 0 by {
            if k < m.len() {
                assert(m.take(k) =~= d.take(k));
            } else {
                assert(m.take(k) =~= m);
                assert(m.drop_last() =~= d.take(d.len() as int));
                assert(m.last() == m[m.len() - 1]);
                assert(paren_step(m.last()) == 0);
                assert(balance(d.take(d.len() as int)) == 0);
                assert(balance(m) == balance(m.drop_last()) + paren_step(m.last()));
            }
        }
    }
}

/// Prefixes of `a + b` that reach into `b` have the depth of `a` plus that of
/// the prefix of `b`.
proof fn lemma_balance_prefix_concat(a: Seq<char>, b: Seq<char>, k: int)
    requires
        a.len() <= k <= a.len() + b.len(),
    ensures
        balance((a + b).take(k)) == balance(a) + balance(b.take(k - a.len())),
{
    assert((a + b).take(k) =~= a + b.take(k - a.len()));
    lemma_balance_concat(a, b.take(k - a.len()));
}

/// Joining two well-nested expressions with a connective that holds no
/// parentheses gives one parenthesized group, which finalizing unwraps to the
/// two expressions and the connective between them.
pub proof fn lemma_join_finalizes_to_inner(left: Seq<char>, connective: Seq<char>, right: Seq<char>)
    requires
        well_nested(left),
        well_nested(right),
        forall|i: int|
            0 <= i < connective.len() ==> connective[i] != '(' && connective[i] != ')',
    ensures
        fully_parenthesized(grouped(left, connective, right)),
        stripped(grouped(left, connective, right)) == chained(left, connective, right),
{
    let mid = seq!['+'] + connective + seq!['+'];
    assert forall|i: int| 0 <= i < mid.len() implies mid[i] != '(' && mid[i] != ')' by {
        if 1 <= i < mid.len() - 1 {
            assert(mid[i] == connective[i - 1]);
        }
    }
    lemma_no_parens_prefixes(mid);
    let inner = chained(left, connective, right);
    assert(inner =~= left + mid + right);
    let lm = left + mid;
    assert(balance(mid.take(mid.len() as int)) == 0);
    assert(mid.take(mid.len() as int) =~= mid);
    lemma_balance_concat(left, mid);
    lemma_balance_concat(lm, right);
    // every prefix of the inner text has a nonnegative depth
    assert forall|j: int| 0 <= j <= inner.len() implies #[trigger] balance(inner.take(j)) >= 0 by {
        if j <= left.len() {
            assert(inner.take(j) =~= left.take(j));
        } else if j <= lm.len() {
            assert(inner.take(j) =~= lm.take(j));
            lemma_balance_prefix_concat(left, mid, j);
        } else {
            assert(inner =~= lm + right);
            lemma_balance_prefix_concat(lm, right, j);
        }
    }
    assert(inner.take(inner.len() as int) =~= inner);
    let g = grouped(left, connective, right);
    let open = seq!['('];
    assert(g =~= open + inner + seq![')']);
    assert(balance(open) == 1) by {
        reveal_with_fuel(balance, 2);
        assert(open.drop_last() =~= Seq::<char>::empty());
        assert(open.last() == '(');
    }
    assert forall|k: int| 1 <= k < g.len() implies #[trigger] balance(g.take(k)) > 0 by {
        assert(g.take(k) =~= open + inner.take(k - 1));
        lemma_balance_concat(open, inner.take(k - 1));
    }
    assert(g.drop_last() =~= open + inner);
    lemma_balance_concat(open, inner);
    assert(g.subrange(1, g.len() - 1) =~= inner);
}

} // verus!
