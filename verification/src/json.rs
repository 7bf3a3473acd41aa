//! JSON documents.
//!
//! A document is a [`Json`] tree. Its model, [`JsonView`], holds the same tree
//! over character sequences, and the accessors are stated over it. Numbers keep
//! the text that they were written as, so that a fraction passes through
//! untouched.
//!
//! Reading and writing JSON text is the work of `serde_json`. Trees cross that
//! boundary as a list of tokens in document order, each container followed by
//! what it holds.

use serde_json::Value;
use vstd::prelude::*;

use crate::text::{chars_of, same};
use crate::views::views;

verus! {

/// A JSON document.
#[derive(Debug, PartialEq)]
pub enum Json {
    Null,
    Bool(bool),
    /// A number, as it was written.
    Number(String),
    Str(String),
    Array(Vec<Json>),
    /// The members of an object, in order.
    Object(Vec<(String, Json)>),
}

/// What a JSON document holds.
#[verifier::ext_equal]
pub enum JsonView {
    Null,
    Bool(bool),
    Number(Seq<char>),
    Str(Seq<char>),
    Array(Seq<JsonView>),
    Object(Seq<(Seq<char>, JsonView)>),
}

/// What a document holds.
pub open spec fn json_view(j: Json) -> JsonView
    decreases j, 0nat,
{
    match j {
        Json::Null => JsonView::Null,
        Json::Bool(b) => JsonView::Bool(b),
        Json::Number(n) => JsonView::Number(n@),
        Json::Str(s) => JsonView::Str(s@),
        Json::Array(v) => JsonView::Array(items_view(v, v.len() as nat)),
        Json::Object(v) => JsonView::Object(members_view(v, v.len() as nat)),
    }
}

/// What the first `n` items of an array hold.
pub open spec fn items_view(v: Vec<Json>, n: nat) -> Seq<JsonView>
    decreases v, n,
{
    if n == 0 || n > v.len() {
        Seq::empty()
    } else {
        items_view(v, (n - 1) as nat).push(json_view(v[n - 1]))
    }
}

/// What the first `n` members of an object hold.
pub open spec fn members_view(v: Vec<(String, Json)>, n: nat) -> Seq<(Seq<char>, JsonView)>
    decreases v, n,
{
    if n == 0 || n > v.len() {
        Seq::empty()
    } else {
        members_view(v, (n - 1) as nat).push((v[n - 1].0@, json_view(v[n - 1].1)))
    }
}

impl View for Json {
    type V = JsonView;

    open spec fn view(&self) -> JsonView {
        json_view(*self)
    }
}

/// What an optional document holds.
pub open spec fn opt_json(j: Option<&Json>) -> Option<JsonView> {
    match j {
        Some(j) => Some(j@),
        None => None,
    }
}

/// The items of an array, one for one.
pub proof fn lemma_items_view(v: Vec<Json>, n: nat)
    requires
        n <= v.len(),
    ensures
        items_view(v, n).len() == n,
        forall|i: int| 0 <= i < n ==> #[trigger] items_view(v, n)[i] == v[i]@,
    decreases n,
{
    if n > 0 {
        lemma_items_view(v, (n - 1) as nat);
    }
}

/// The members of an object, one for one.
pub proof fn lemma_members_view(v: Vec<(String, Json)>, n: nat)
    requires
        n <= v.len(),
    ensures
        members_view(v, n).len() == n,
        forall|i: int| 0 <= i < n ==> #[trigger] members_view(v, n)[i] == (v[i].0@, v[i].1@),
    decreases n,
{
    if n > 0 {
        lemma_members_view(v, (n - 1) as nat);
    }
}

/// The value of the first member called `key`.
pub open spec fn lookup(members: Seq<(Seq<char>, JsonView)>, key: Seq<char>) -> Option<JsonView>
    decreases members.len(),
{
    if members.len() == 0 {
        None
    } else if members[0].0 == key {
        Some(members[0].1)
    } else {
        lookup(members.drop_first(), key)
    }
}

/// The value that a run of decimal digits stands for.
pub open spec fn digits_value(s: Seq<char>) -> nat
    decreases s.len(),
{
    if s.len() == 0 {
        0
    } else {
        digits_value(s.drop_last()) * 10 + (s.last() as u32 - '0' as u32) as nat
    }
}

/// Whether a text is one or more decimal digits.
pub open spec fn is_digits(s: Seq<char>) -> bool {
    s.len() > 0 && forall|i: int| 0 <= i < s.len() ==> '0' <= #[trigger] s[i] <= '9'
}

/// The unsigned integer that a number is written as, if it is one.
pub open spec fn unsigned_of(s: Seq<char>) -> Option<u64> {
    if is_digits(s) && digits_value(s) <= u64::MAX {
        Some(digits_value(s) as u64)
    } else {
        None
    }
}

/// The signed integer that a number is written as, if it is one.
pub open spec fn signed_of(s: Seq<char>) -> Option<i64> {
    if s.len() > 0 && s[0] == '-' {
        if is_digits(s.skip(1)) && -digits_value(s.skip(1)) >= i64::MIN {
            Some((-digits_value(s.skip(1))) as i64)
        } else {
            None
        }
    } else if is_digits(s) && digits_value(s) <= i64::MAX {
        Some(digits_value(s) as i64)
    } else {
        None
    }
}

impl JsonView {
    /// The value of the member called `key`, where this is an object that has one.
    pub open spec fn field(self, key: Seq<char>) -> Option<JsonView> {
        match self {
            JsonView::Object(members) => lookup(members, key),
            _ => None,
        }
    }

    /// The text of this document, where it is a string.
    pub open spec fn text(self) -> Option<Seq<char>> {
        match self {
            JsonView::Str(s) => Some(s),
            _ => None,
        }
    }

    /// The truth value of this document, where it is one.
    pub open spec fn truth(self) -> Option<bool> {
        match self {
            JsonView::Bool(b) => Some(b),
            _ => None,
        }
    }

    /// The unsigned integer that this document is, where it is one.
    pub open spec fn unsigned(self) -> Option<u64> {
        match self {
            JsonView::Number(n) => unsigned_of(n),
            _ => None,
        }
    }

    /// The signed integer that this document is, where it is one.
    pub open spec fn signed(self) -> Option<i64> {
        match self {
            JsonView::Number(n) => signed_of(n),
            _ => None,
        }
    }

    /// The items of this document, where it is an array.
    pub open spec fn items(self) -> Option<Seq<JsonView>> {
        match self {
            JsonView::Array(v) => Some(v),
            _ => None,
        }
    }

    /// The text of the member called `key`, where it is a string.
    pub open spec fn text_at(self, key: Seq<char>) -> Option<Seq<char>> {
        match self.field(key) {
            Some(v) => v.text(),
            None => None,
        }
    }

    /// The truth value of the member called `key`, where it is one.
    pub open spec fn truth_at(self, key: Seq<char>) -> Option<bool> {
        match self.field(key) {
            Some(v) => v.truth(),
            None => None,
        }
    }

    /// The unsigned integer that the member called `key` is, where it is one.
    pub open spec fn unsigned_at(self, key: Seq<char>) -> Option<u64> {
        match self.field(key) {
            Some(v) => v.unsigned(),
            None => None,
        }
    }

    /// The signed integer that the member called `key` is, where it is one.
    pub open spec fn signed_at(self, key: Seq<char>) -> Option<i64> {
        match self.field(key) {
            Some(v) => v.signed(),
            None => None,
        }
    }

    /// The items of the member called `key`, where it is an array.
    pub open spec fn items_at(self, key: Seq<char>) -> Option<Seq<JsonView>> {
        match self.field(key) {
            Some(v) => v.items(),
            None => None,
        }
    }
}

proof fn lemma_digits_value_grows(s: Seq<char>, n: int)
    requires
        0 <= n <= s.len(),
    ensures
        digits_value(s.take(n)) <= digits_value(s),
    decreases s.len() - n,
{
    if n < s.len() {
        lemma_digits_value_grows(s, n + 1);
        assert(s.take(n + 1).drop_last() =~= s.take(n));
    } else {
        assert(s.take(n) =~= s);
    }
}

/// The value of the digits of `chars` from `from` on, where they are digits and
/// fit.
fn parse_digits(chars: &Vec<char>, from: usize) -> (r: Option<u64>)
    requires
        from <= chars@.len(),
    ensures
        r == unsigned_of(chars@.skip(from as int)),
{
    if from == chars.len() {
        return None;
    }
    let ghost s = chars@.skip(from as int);
    let mut value: u64 = 0;
    let mut i: usize = from;
    proof {
        assert(s.take(0) =~= Seq::empty());
    }
    while i < chars.len()
        invariant
            from <= i <= chars@.len(),
            from < chars@.len(),
            s == chars@.skip(from as int),
            forall|k: int| 0 <= k < i - from ==> '0' <= #[trigger] s[k] <= '9',
            value == digits_value(s.take(i - from)),
        decreases chars@.len() - i,
    {
        let c = chars[i];
        assert(c == s[i - from]);
        if !('0' <= c && c <= '9') {
            return None;
        }
        let d: u64 = (c as u64) - 48;
        proof {
            assert(s.take(i + 1 - from).drop_last() =~= s.take(i - from));
            lemma_digits_value_grows(s, i + 1 - from);
        }
        if value > 1844674407370955161 || (value == 1844674407370955161 && d > 5) {
            return None;
        }
        value = value * 10 + d;
        i = i + 1;
    }
    proof {
        assert(s.take(i - from) =~= s);
    }
    Some(value)
}

impl Json {
    /// The value of the member called `key`, where this is an object that has one.
    pub fn get(&self, key: &str) -> (r: Option<&Json>)
        ensures
            opt_json(r) == self@.field(key@),
    {
        match self {
            Json::Object(members) => {
                let mut i: usize = 0;
                proof {
                    lemma_members_view(*members, members.len() as nat);
                    assert(self@->Object_0.skip(0) =~= self@->Object_0);
                }
                while i < members.len()
                    invariant
                        self matches Json::Object(m) && m == members,
                        i <= members@.len(),
                        self@ == JsonView::Object(members_view(*members, members.len() as nat)),
                        members_view(*members, members.len() as nat).len() == members.len(),
                        forall|k: int|
                            0 <= k < members.len() ==> #[trigger] members_view(
                                *members,
                                members.len() as nat,
                            )[k] == (members[k].0@, members[k].1@),
                        self@.field(key@) == lookup(self@->Object_0.skip(i as int), key@),
                    decreases members@.len() - i,
                {
                    proof {
                        let rest = self@->Object_0.skip(i as int);
                        assert(rest[0] == (members[i as int].0@, members[i as int].1@));
                        assert(rest.drop_first() =~= self@->Object_0.skip(i + 1));
                    }
                    if same(members[i].0.as_str(), key) {
                        return Some(&members[i].1);
                    }
                    i = i + 1;
                }
                None
            },
            _ => None,
        }
    }

    /// The text of this document, where it is a string.
    pub fn as_str(&self) -> (r: Option<&str>)
        ensures
            crate::text::opt_str(r) == self@.text(),
    {
        match self {
            Json::Str(s) => Some(s.as_str()),
            _ => None,
        }
    }

    /// The truth value of this document, where it is one.
    pub fn as_bool(&self) -> (r: Option<bool>)
        ensures
            r == self@.truth(),
    {
        match self {
            Json::Bool(b) => Some(*b),
            _ => None,
        }
    }

    /// The unsigned integer that this document is, where it is one.
    pub fn as_u64(&self) -> (r: Option<u64>)
        ensures
            r == self@.unsigned(),
    {
        match self {
            Json::Number(n) => {
                let chars = chars_of(n.as_str());
                proof {
                    assert(chars@.skip(0) =~= chars@);
                }
                parse_digits(&chars, 0)
            },
            _ => None,
        }
    }

    /// The signed integer that this document is, where it is one.
    pub fn as_i64(&self) -> (r: Option<i64>)
        ensures
            r == self@.signed(),
    {
        match self {
            Json::Number(n) => {
                let chars = chars_of(n.as_str());
                proof {
                    assert(chars@.skip(0) =~= chars@);
                }
                if chars.len() > 0 && chars[0] == '-' {
                    match parse_digits(&chars, 1) {
                        Some(v) => {
                            if v < 9223372036854775808 {
                                Some(-(v as i64))
                            } else if v == 9223372036854775808 {
                                Some(i64::MIN)
                            } else {
                                None
                            }
                        },
                        None => None,
                    }
                } else {
                    match parse_digits(&chars, 0) {
                        Some(v) => {
                            if v <= 9223372036854775807 {
                                Some(v as i64)
                            } else {
                                None
                            }
                        },
                        None => None,
                    }
                }
            },
            _ => None,
        }
    }

    /// The items of this document, where it is an array.
    pub fn as_array(&self) -> (r: Option<&Vec<Json>>)
        ensures
            match r {
                Some(v) => self@.items() == Some(views(v@)),
                None => self@.items() is None,
            },
    {
        match self {
            Json::Array(v) => {
                proof {
                    lemma_items_view(*v, v.len() as nat);
                    assert(items_view(*v, v.len() as nat) =~= views(v@));
                }
                Some(v)
            },
            _ => None,
        }
    }

    /// The text of the member called `key`, where it is a string.
    pub fn str_at(&self, key: &str) -> (r: Option<&str>)
        ensures
            crate::text::opt_str(r) == self@.text_at(key@),
    {
        match self.get(key) {
            Some(v) => v.as_str(),
            None => None,
        }
    }

    /// The truth value of the member called `key`, where it is one.
    pub fn bool_at(&self, key: &str) -> (r: Option<bool>)
        ensures
            r == self@.truth_at(key@),
    {
        match self.get(key) {
            Some(v) => v.as_bool(),
            None => None,
        }
    }

    /// The unsigned integer that the member called `key` is, where it is one.
    pub fn u64_at(&self, key: &str) -> (r: Option<u64>)
        ensures
            r == self@.unsigned_at(key@),
    {
        match self.get(key) {
            Some(v) => v.as_u64(),
            None => None,
        }
    }

    /// The signed integer that the member called `key` is, where it is one.
    pub fn i64_at(&self, key: &str) -> (r: Option<i64>)
        ensures
            r == self@.signed_at(key@),
    {
        match self.get(key) {
            Some(v) => v.as_i64(),
            None => None,
        }
    }

    /// The items of the member called `key`, where it is an array.
    pub fn array_at(&self, key: &str) -> (r: Option<&Vec<Json>>)
        ensures
            match r {
                Some(v) => self@.items_at(key@) == Some(views(v@)),
                None => self@.items_at(key@) is None,
            },
    {
        match self.get(key) {
            Some(v) => v.as_array(),
            None => None,
        }
    }
}

impl Clone for Json {
    fn clone(&self) -> (r: Self)
        ensures
            r@ == self@,
    {
        self.copy()
    }
}

impl Json {
    /// A copy of this document.
    pub fn copy(&self) -> (r: Json)
        ensures
            r@ == self@,
        decreases self,
    {
        match self {
            Json::Null => Json::Null,
            Json::Bool(b) => Json::Bool(*b),
            Json::Number(n) => Json::Number(n.clone()),
            Json::Str(s) => Json::Str(s.clone()),
            Json::Array(v) => {
                let mut out: Vec<Json> = Vec::new();
                let mut i: usize = 0;
                while i < v.len()
                    invariant
                        *self == Json::Array(*v),
                        i <= v@.len(),
                        out@.len() == i,
                        forall|k: int| 0 <= k < i ==> (#[trigger] out@[k])@ == v@[k]@,
                    decreases v@.len() - i,
                {
                    proof {
                        assert(self->Array_0 == *v);
                        assert(decreases_to!(*v => v[i as int]));
                    }
                    out.push(v[i].copy());
                    i = i + 1;
                }
                proof {
                    lemma_items_view(*v, v.len() as nat);
                    lemma_items_view(out, out.len() as nat);
                    assert(items_view(out, out.len() as nat) =~= items_view(*v, v.len() as nat));
                }
                Json::Array(out)
            },
            Json::Object(v) => {
                let mut out: Vec<(String, Json)> = Vec::new();
                let mut i: usize = 0;
                while i < v.len()
                    invariant
                        *self == Json::Object(*v),
                        i <= v@.len(),
                        out@.len() == i,
                        forall|k: int|
                            0 <= k < i ==> (#[trigger] out@[k]).0@ == v@[k].0@ && out@[k].1@
                                == v@[k].1@,
                    decreases v@.len() - i,
                {
                    proof {
                        assert(self->Object_0 == *v);
                        assert(decreases_to!(*v => v[i as int]));
                    }
                    out.push((v[i].0.clone(), v[i].1.copy()));
                    i = i + 1;
                }
                proof {
                    lemma_members_view(*v, v.len() as nat);
                    lemma_members_view(out, out.len() as nat);
                    assert(members_view(out, out.len() as nat) =~= members_view(
                        *v,
                        v.len() as nat,
                    ));
                }
                Json::Object(out)
            },
        }
    }
}

/// One step of a document in document order. A container is followed by what it
/// holds.
#[derive(Debug)]
pub enum JsonToken {
    Null,
    Bool(bool),
    Number(String),
    Str(String),
    /// An array of this many items.
    Array(usize),
    /// An object with these member names.
    Object(Vec<String>),
}

/// What a token holds.
#[verifier::ext_equal]
pub enum TokenView {
    Null,
    Bool(bool),
    Number(Seq<char>),
    Str(Seq<char>),
    Array(nat),
    Object(Seq<Seq<char>>),
}

impl View for JsonToken {
    type V = TokenView;

    open spec fn view(&self) -> TokenView {
        match *self {
            JsonToken::Null => TokenView::Null,
            JsonToken::Bool(b) => TokenView::Bool(b),
            JsonToken::Number(n) => TokenView::Number(n@),
            JsonToken::Str(s) => TokenView::Str(s@),
            JsonToken::Array(n) => TokenView::Array(n as nat),
            JsonToken::Object(keys) => TokenView::Object(views(keys@)),
        }
    }
}

/// The member names of an object.
pub open spec fn keys_of(members: Seq<(Seq<char>, JsonView)>) -> Seq<Seq<char>> {
    Seq::new(members.len(), |i: int| members[i].0)
}

/// The tokens of a document.
pub open spec fn tokens_of(j: JsonView) -> Seq<TokenView>
    decreases j, 0nat,
{
    match j {
        JsonView::Null => seq![TokenView::Null],
        JsonView::Bool(b) => seq![TokenView::Bool(b)],
        JsonView::Number(n) => seq![TokenView::Number(n)],
        JsonView::Str(s) => seq![TokenView::Str(s)],
        JsonView::Array(v) => seq![TokenView::Array(v.len())] + items_tokens(v, v.len()),
        JsonView::Object(v) => seq![TokenView::Object(keys_of(v))] + members_tokens(v, v.len()),
    }
}

/// The tokens of the first `n` items of an array.
pub open spec fn items_tokens(v: Seq<JsonView>, n: nat) -> Seq<TokenView>
    decreases v, n,
{
    if n == 0 || n > v.len() {
        Seq::empty()
    } else {
        items_tokens(v, (n - 1) as nat) + tokens_of(v[n - 1])
    }
}

/// The tokens of the values of the first `n` members of an object.
pub open spec fn members_tokens(v: Seq<(Seq<char>, JsonView)>, n: nat) -> Seq<TokenView>
    decreases v, n,
{
    if n == 0 || n > v.len() {
        Seq::empty()
    } else {
        members_tokens(v, (n - 1) as nat) + tokens_of(v[n - 1].1)
    }
}

/// The document that `t` starts with, and what follows it.
pub open spec fn read_tree(t: Seq<TokenView>) -> Option<(JsonView, Seq<TokenView>)>
    decreases t.len(), 0nat,
{
    if t.len() == 0 {
        None
    } else {
        let rest = t.drop_first();
        match t.first() {
            TokenView::Null => Some((JsonView::Null, rest)),
            TokenView::Bool(b) => Some((JsonView::Bool(b), rest)),
            TokenView::Number(n) => Some((JsonView::Number(n), rest)),
            TokenView::Str(s) => Some((JsonView::Str(s), rest)),
            TokenView::Array(n) => match read_trees(rest, n) {
                Some((v, rest)) => Some((JsonView::Array(v), rest)),
                None => None,
            },
            TokenView::Object(keys) => match read_trees(rest, keys.len()) {
                Some((v, rest)) => Some((JsonView::Object(named(keys, v)), rest)),
                None => None,
            },
        }
    }
}

/// The first `n` documents that `t` starts with, and what follows them.
pub open spec fn read_trees(t: Seq<TokenView>, n: nat) -> Option<(Seq<JsonView>, Seq<TokenView>)>
    decreases t.len(), 1nat,
{
    if n == 0 {
        Some((Seq::empty(), t))
    } else {
        match read_tree(t) {
            Some((j, rest)) => if rest.len() < t.len() {
                match read_trees(rest, (n - 1) as nat) {
                    Some((v, rest)) => Some((seq![j] + v, rest)),
                    None => None,
                }
            } else {
                None
            },
            None => None,
        }
    }
}

/// Values under their names.
pub open spec fn named(keys: Seq<Seq<char>>, values: Seq<JsonView>) -> Seq<(Seq<char>, JsonView)> {
    Seq::new(keys.len(), |i: int| (keys[i], values[i]))
}

/// The document that a list of tokens is, where it is one and no more.
pub open spec fn tree_of(t: Seq<TokenView>) -> Option<JsonView> {
    match read_tree(t) {
        Some((j, rest)) => if rest.len() == 0 {
            Some(j)
        } else {
            None
        },
        None => None,
    }
}

proof fn lemma_read_shrinks(t: Seq<TokenView>)
    ensures
        read_tree(t) matches Some((_, rest)) ==> rest.len() < t.len(),
    decreases t.len(), 0nat,
{
    if t.len() > 0 {
        match t.first() {
            TokenView::Array(n) => lemma_reads_shrink(t.drop_first(), n),
            TokenView::Object(keys) => lemma_reads_shrink(t.drop_first(), keys.len()),
            _ => {},
        }
    }
}

proof fn lemma_reads_shrink(t: Seq<TokenView>, n: nat)
    ensures
        read_trees(t, n) matches Some((v, rest)) ==> rest.len() <= t.len() && v.len() == n,
    decreases t.len(), 1nat,
{
    if n > 0 {
        if let Some((_, rest)) = read_tree(t) {
            if rest.len() < t.len() {
                lemma_reads_shrink(rest, (n - 1) as nat);
            }
        }
    }
}

/// Reading the tokens of a document gives the document back and leaves what
/// follows it.
pub proof fn lemma_tokens_read_back(j: JsonView, after: Seq<TokenView>)
    ensures
        read_tree(tokens_of(j) + after) == Some((j, after)),
    decreases j, 0nat,
{
    let t = tokens_of(j) + after;
    match j {
        JsonView::Array(v) => {
            lemma_items_read_back(v, 0, after);
            assert(v.skip(0) =~= v);
            assert(t.drop_first() =~= items_tokens(v, v.len()) + after);
            assert(items_tokens(v, 0) + items_tokens_from(v, 0) =~= items_tokens_from(v, 0));
            lemma_items_tokens_split(v, 0);
        },
        JsonView::Object(v) => {
            lemma_members_read_back(v, 0, after);
            assert(values_of(v).skip(0) =~= values_of(v));
            assert(t.drop_first() =~= members_tokens(v, v.len()) + after);
            assert(members_tokens(v, 0) + members_tokens_from(v, 0) =~= members_tokens_from(v, 0));
            lemma_members_tokens_split(v, 0);
            assert(named(keys_of(v), values_of(v)) =~= v);
        },
        _ => {
            assert(t.drop_first() =~= after);
        },
    }
}

spec fn values_of(members: Seq<(Seq<char>, JsonView)>) -> Seq<JsonView> {
    Seq::new(members.len(), |i: int| members[i].1)
}

/// The tokens of the items of an array from `i` on.
spec fn items_tokens_from(v: Seq<JsonView>, i: nat) -> Seq<TokenView>
    decreases v.len() - i,
{
    if i >= v.len() {
        Seq::empty()
    } else {
        tokens_of(v[i as int]) + items_tokens_from(v, i + 1)
    }
}

spec fn members_tokens_from(v: Seq<(Seq<char>, JsonView)>, i: nat) -> Seq<TokenView>
    decreases v.len() - i,
{
    if i >= v.len() {
        Seq::empty()
    } else {
        tokens_of(v[i as int].1) + members_tokens_from(v, i + 1)
    }
}

proof fn lemma_items_tokens_split(v: Seq<JsonView>, i: nat)
    requires
        i <= v.len(),
    ensures
        items_tokens(v, v.len()) =~= items_tokens(v, i) + items_tokens_from(v, i),
    decreases v.len() - i,
{
    if i < v.len() {
        lemma_items_tokens_split(v, i + 1);
    }
}

proof fn lemma_members_tokens_split(v: Seq<(Seq<char>, JsonView)>, i: nat)
    requires
        i <= v.len(),
    ensures
        members_tokens(v, v.len()) =~= members_tokens(v, i) + members_tokens_from(v, i),
    decreases v.len() - i,
{
    if i < v.len() {
        lemma_members_tokens_split(v, i + 1);
    }
}

proof fn lemma_items_read_back(v: Seq<JsonView>, i: nat, after: Seq<TokenView>)
    requires
        i <= v.len(),
    ensures
        read_trees(items_tokens_from(v, i) + after, (v.len() - i) as nat) == Some(
            (v.skip(i as int), after),
        ),
    decreases v, v.len() - i,
{
    if i < v.len() {
        let rest = items_tokens_from(v, i + 1) + after;
        let t = items_tokens_from(v, i) + after;
        lemma_tokens_read_back(v[i as int], rest);
        lemma_items_read_back(v, i + 1, after);
        assert(t =~= tokens_of(v[i as int]) + rest);
        lemma_read_shrinks(t);
        assert(v.skip(i as int) =~= seq![v[i as int]] + v.skip((i + 1) as int));
    } else {
        assert(items_tokens_from(v, i) + after =~= after);
        assert(v.skip(i as int) =~= Seq::empty());
    }
}

proof fn lemma_members_read_back(
    v: Seq<(Seq<char>, JsonView)>,
    i: nat,
    after: Seq<TokenView>,
)
    requires
        i <= v.len(),
    ensures
        read_trees(members_tokens_from(v, i) + after, (v.len() - i) as nat) == Some(
            (values_of(v).skip(i as int), after),
        ),
    decreases v, v.len() - i,
{
    if i < v.len() {
        let rest = members_tokens_from(v, i + 1) + after;
        let t = members_tokens_from(v, i) + after;
        lemma_tokens_read_back(v[i as int].1, rest);
        lemma_members_read_back(v, i + 1, after);
        assert(t =~= tokens_of(v[i as int].1) + rest);
        lemma_read_shrinks(t);
        assert(values_of(v).skip(i as int) =~= seq![v[i as int].1] + values_of(v).skip((i + 1) as int));
    } else {
        assert(members_tokens_from(v, i) + after =~= after);
        assert(values_of(v).skip(i as int) =~= Seq::empty());
    }
}

/// The tokens of a document are read back as that document.
pub proof fn lemma_tree_of_tokens(j: JsonView)
    ensures
        tree_of(tokens_of(j)) == Some(j),
{
    lemma_tokens_read_back(j, Seq::empty());
    assert(tokens_of(j) + Seq::empty() =~= tokens_of(j));
}

proof fn lemma_items_tokens_shift(v: Seq<JsonView>, i: nat)
    requires
        v.len() > 0,
    ensures
        items_tokens_from(v, i + 1) == items_tokens_from(v.drop_first(), i),
    decreases v.len() - i,
{
    if i + 1 < v.len() {
        lemma_items_tokens_shift(v, i + 1);
        assert(v.drop_first()[i as int] == v[(i + 1) as int]);
    }
}

proof fn lemma_named_tokens(keys: Seq<Seq<char>>, v: Seq<JsonView>, i: nat)
    requires
        keys.len() == v.len(),
    ensures
        members_tokens_from(named(keys, v), i) == items_tokens_from(v, i),
    decreases v.len() - i,
{
    if i < v.len() {
        lemma_named_tokens(keys, v, i + 1);
    }
}

/// A document that was read from a list of tokens has those tokens.
proof fn lemma_tokens_of_read(t: Seq<TokenView>)
    requires
        read_tree(t) is Some,
    ensures
        t == tokens_of((read_tree(t)->0).0) + (read_tree(t)->0).1,
    decreases t.len(), 0nat,
{
    let (j, after) = read_tree(t)->0;
    let rest = t.drop_first();
    assert(t =~= seq![t.first()] + rest);
    match t.first() {
        TokenView::Array(n) => {
            let v = (read_trees(rest, n)->0).0;
            lemma_tokens_of_reads(rest, n);
            lemma_items_tokens_split(v, 0);
            assert(t =~= tokens_of(j) + after);
        },
        TokenView::Object(keys) => {
            let v = (read_trees(rest, keys.len())->0).0;
            lemma_tokens_of_reads(rest, keys.len());
            let members = named(keys, v);
            lemma_named_tokens(keys, v, 0);
            lemma_members_tokens_split(members, 0);
            assert(keys_of(members) =~= keys);
            assert(t =~= tokens_of(j) + after);
        },
        _ => {},
    }
}

proof fn lemma_tokens_of_reads(t: Seq<TokenView>, n: nat)
    requires
        read_trees(t, n) is Some,
    ensures
        t == items_tokens_from((read_trees(t, n)->0).0, 0) + (read_trees(t, n)->0).1,
        (read_trees(t, n)->0).0.len() == n,
    decreases t.len(), 1nat,
{
    let (v, after) = read_trees(t, n)->0;
    lemma_reads_shrink(t, n);
    if n == 0 {
        assert(t =~= items_tokens_from(v, 0) + after);
    } else {
        let (j, rest) = read_tree(t)->0;
        lemma_tokens_of_read(t);
        lemma_tokens_of_reads(rest, (n - 1) as nat);
        let tail = (read_trees(rest, (n - 1) as nat)->0).0;
        lemma_items_tokens_shift(v, 0);
        assert(v.drop_first() =~= tail);
        assert(t =~= items_tokens_from(v, 0) + after);
    }
}

/// The document that the tokens from `pos` on start with, and where it ends.
fn read_from(tokens: &Vec<JsonToken>, pos: usize) -> (r: Option<(Json, usize)>)
    requires
        pos <= tokens@.len(),
    ensures
        match r {
            Some((j, end)) => pos < end <= tokens@.len() && read_tree(
                views(tokens@).skip(pos as int),
            ) == Some((j@, views(tokens@).skip(end as int))),
            None => read_tree(views(tokens@).skip(pos as int)) is None,
        },
    decreases tokens@.len() - pos, 0nat,
{
    let ghost all = views(tokens@);
    let ghost t = all.skip(pos as int);
    if pos == tokens.len() {
        return None;
    }
    proof {
        assert(t.drop_first() =~= all.skip(pos + 1));
    }
    match &tokens[pos] {
        JsonToken::Null => Some((Json::Null, pos + 1)),
        JsonToken::Bool(b) => Some((Json::Bool(*b), pos + 1)),
        JsonToken::Number(n) => Some((Json::Number(n.clone()), pos + 1)),
        JsonToken::Str(s) => Some((Json::Str(s.clone()), pos + 1)),
        JsonToken::Array(n) => {
            match read_many_from(tokens, pos + 1, *n) {
                Some((items, end)) => {
                    proof {
                        lemma_items_view(items, items.len() as nat);
                        assert(items_view(items, items.len() as nat) =~= views(items@));
                    }
                    Some((Json::Array(items), end))
                },
                None => None,
            }
        },
        JsonToken::Object(keys) => {
            match read_many_from(tokens, pos + 1, keys.len()) {
                Some((values, end)) => {
                    let mut values = values;
                    let ghost all_values = values@;
                    let mut members: Vec<(String, Json)> = Vec::new();
                    let mut i: usize = keys.len();
                    while i > 0
                        invariant
                            i <= keys@.len(),
                            values@ == all_values.take(i as int),
                            all_values.len() == keys@.len(),
                            members@.len() == keys@.len() - i,
                            forall|k: int|
                                0 <= k < members@.len() ==> (#[trigger] members@[k]).0@
                                    == keys@[keys@.len() - 1 - k]@ && members@[k].1@
                                    == all_values[keys@.len() - 1 - k]@,
                        decreases i,
                    {
                        i = i - 1;
                        match values.pop() {
                            Some(value) => members.push((keys[i].clone(), value)),
                            None => {},
                        }
                        proof {
                            assert(values@ =~= all_values.take(i as int));
                        }
                    }
                    let members = reversed(members);
                    proof {
                        lemma_members_view(members, members.len() as nat);
                        assert(members_view(members, members.len() as nat) =~= named(
                            views(keys@),
                            views(all_values),
                        ));
                    }
                    Some((Json::Object(members), end))
                },
                None => None,
            }
        },
    }
}

/// The members of a list, last first.
fn reversed(members: Vec<(String, Json)>) -> (r: Vec<(String, Json)>)
    ensures
        r@ == members@.reverse(),
{
    let mut from = members;
    let mut out: Vec<(String, Json)> = Vec::new();
    let ghost all = from@;
    loop
        invariant
            from@.len() + out@.len() == all.len(),
            from@ == all.take(from@.len() as int),
            forall|k: int| 0 <= k < out@.len() ==> out@[k] == all[all.len() - 1 - k],
        ensures
            from@.len() == 0,
        decreases from@.len(),
    {
        let ghost before = from@;
        match from.pop() {
            Some(member) => {
                proof {
                    assert(from@ =~= all.take(from@.len() as int));
                }
                out.push(member);
            },
            None => {
                break ;
            },
        }
    }
    proof {
        assert(out@ =~= all.reverse());
    }
    out
}

/// The first `n` documents that the tokens from `pos` on start with, and where
/// they end.
fn read_many_from(tokens: &Vec<JsonToken>, pos: usize, n: usize) -> (r: Option<(Vec<Json>, usize)>)
    requires
        pos <= tokens@.len(),
    ensures
        match r {
            Some((v, end)) => pos <= end <= tokens@.len() && v@.len() == n && read_trees(
                views(tokens@).skip(pos as int),
                n as nat,
            ) == Some((views(v@), views(tokens@).skip(end as int))),
            None => read_trees(views(tokens@).skip(pos as int), n as nat) is None,
        },
    decreases tokens@.len() - pos, 1nat,
{
    let ghost all = views(tokens@);
    let mut out: Vec<Json> = Vec::new();
    let mut at: usize = pos;
    let mut left: usize = n;
    proof {
        assert(views(out@) =~= Seq::empty());
    }
    while left > 0
        invariant
            pos <= at <= tokens@.len(),
            left <= n,
            out@.len() == n - left,
            all == views(tokens@),
            match read_trees(all.skip(at as int), left as nat) {
                Some((v, rest)) => read_trees(all.skip(pos as int), n as nat) == Some(
                    (views(out@) + v, rest),
                ),
                None => read_trees(all.skip(pos as int), n as nat) is None,
            },
        decreases left,
    {
        match read_from(tokens, at) {
            Some((j, end)) => {
                let ghost before = out@;
                proof {
                    let rest = all.skip(end as int);
                    if let Some((v, after)) = read_trees(rest, (left - 1) as nat) {
                        assert(views(before) + (seq![j@] + v) =~= views(before.push(j))
                            + v);
                    }
                }
                out.push(j);
                at = end;
                left = left - 1;
            },
            None => {
                return None;
            },
        }
    }
    proof {
        assert(views(out@) + Seq::<JsonView>::empty() =~= views(out@));
    }
    Some((out, at))
}

/// The document that a list of tokens is, where it is one and no more.
pub fn read_tokens(tokens: &Vec<JsonToken>) -> (r: Option<Json>)
    ensures
        match r {
            Some(j) => tree_of(views(tokens@)) == Some(j@),
            None => tree_of(views(tokens@)) is None,
        },
{
    proof {
        assert(views(tokens@).skip(0) =~= views(tokens@));
    }
    match read_from(tokens, 0) {
        Some((j, end)) => {
            if end == tokens.len() {
                Some(j)
            } else {
                None
            }
        },
        None => None,
    }
}

impl Json {
    /// The tokens of this document, put behind those of `out`.
    fn push_tokens(&self, out: &mut Vec<JsonToken>)
        ensures
            views(final(out)@) == views(old(out)@) + tokens_of(self@),
        decreases self,
    {
        let ghost start = out@;
        match self {
            Json::Null => out.push(JsonToken::Null),
            Json::Bool(b) => out.push(JsonToken::Bool(*b)),
            Json::Number(n) => out.push(JsonToken::Number(n.clone())),
            Json::Str(s) => out.push(JsonToken::Str(s.clone())),
            Json::Array(v) => {
                out.push(JsonToken::Array(v.len()));
                proof {
                    lemma_items_view(*v, v.len() as nat);
                }
                let ghost items = items_view(*v, v.len() as nat);
                let ghost head = views(start) + seq![TokenView::Array(items.len())];
                proof {
                    assert(views(out@) =~= head + items_tokens(items, 0));
                }
                let mut i: usize = 0;
                while i < v.len()
                    invariant
                        *self == Json::Array(*v),
                        i <= v@.len(),
                        items == items_view(*v, v.len() as nat),
                        items.len() == v.len(),
                        forall|k: int| 0 <= k < v.len() ==> #[trigger] items[k] == v[k]@,
                        views(out@) == head + items_tokens(items, i as nat),
                    decreases v@.len() - i,
                {
                    proof {
                        assert(self->Array_0 == *v);
                        assert(decreases_to!(*v => v[i as int]));
                    }
                    v[i].push_tokens(out);
                    i = i + 1;
                    proof {
                        assert(views(out@) =~= head + items_tokens(items, i as nat));
                    }
                }
            },
            Json::Object(v) => {
                let mut keys: Vec<String> = Vec::new();
                let mut i: usize = 0;
                while i < v.len()
                    invariant
                        i <= v@.len(),
                        keys@.len() == i,
                        forall|k: int| 0 <= k < i ==> (#[trigger] keys@[k])@ == v@[k].0@,
                    decreases v@.len() - i,
                {
                    keys.push(v[i].0.clone());
                    i = i + 1;
                }
                proof {
                    lemma_members_view(*v, v.len() as nat);
                }
                let ghost members = members_view(*v, v.len() as nat);
                let ghost head = views(start) + seq![TokenView::Object(keys_of(members))];
                proof {
                    assert(views(keys@) =~= keys_of(members));
                }
                out.push(JsonToken::Object(keys));
                proof {
                    assert(views(out@) =~= head + members_tokens(members, 0));
                }
                i = 0;
                while i < v.len()
                    invariant
                        *self == Json::Object(*v),
                        i <= v@.len(),
                        members == members_view(*v, v.len() as nat),
                        members.len() == v.len(),
                        forall|k: int|
                            0 <= k < v.len() ==> #[trigger] members[k] == (v[k].0@, v[k].1@),
                        views(out@) == head + members_tokens(members, i as nat),
                    decreases v@.len() - i,
                {
                    proof {
                        assert(self->Object_0 == *v);
                        assert(decreases_to!(*v => v[i as int]));
                    }
                    v[i].1.push_tokens(out);
                    i = i + 1;
                    proof {
                        assert(views(out@) =~= head + members_tokens(members, i as nat));
                    }
                }
            },
        }
        proof {
            assert(views(out@) =~= views(start) + tokens_of(self@));
        }
    }

    /// The tokens of this document.
    pub fn to_tokens(&self) -> (r: Vec<JsonToken>)
        ensures
            views(r@) == tokens_of(self@),
    {
        let mut out: Vec<JsonToken> = Vec::new();
        self.push_tokens(&mut out);
        proof {
            assert(views(Seq::<JsonToken>::empty()) + tokens_of(self@) =~= tokens_of(self@));
        }
        out
    }
}

/// The tokens of the document that `serde_json::from_str` reads from a text,
/// where the text is one.
pub uninterp spec fn parsed_tokens(text: Seq<char>) -> Option<Seq<TokenView>>;

/// `serde_json::from_str`: the document written in `text`, as tokens. Which
/// texts are documents, and what they hold, is left to that function; claimed is
/// only that it depends on the text alone.
#[verifier::external_body]
fn parse_tokens(text: &str) -> (r: Option<Vec<JsonToken>>)
    ensures
        match r {
            Some(t) => parsed_tokens(text@) == Some(views(t@)),
            None => parsed_tokens(text@) is None,
        },
{
    let mut stack = vec![serde_json::from_str(text).ok()?];
    let mut out = Vec::new();
    while let Some(value) = stack.pop() {
        out.push(match value {
            Value::Null => JsonToken::Null,
            Value::Bool(b) => JsonToken::Bool(b),
            Value::Number(n) => JsonToken::Number(n.to_string()),
            Value::String(s) => JsonToken::Str(s),
            Value::Array(v) => { stack.extend(v.iter().rev().cloned()); JsonToken::Array(v.len()) },
            Value::Object(m) => { stack.extend(m.values().rev().cloned()); JsonToken::Object(m.keys().cloned().collect()) },
        });
    }
    Some(out)
}

/// Whether a list of tokens is what some text was read as.
pub open spec fn was_read(tokens: Seq<TokenView>) -> bool {
    exists|text: Seq<char>| #[trigger] parsed_tokens(text) == Some(tokens)
}

/// Whether every number in a list of tokens is a whole one.
pub open spec fn has_whole_numbers(tokens: Seq<TokenView>) -> bool {
    forall|i: int|
        0 <= i < tokens.len() ==> (#[trigger] tokens[i] matches TokenView::Number(n) ==> (
        unsigned_of(n) is Some || signed_of(n) is Some))
}

/// The text that `serde_json::to_string_pretty` writes for a document.
pub uninterp spec fn pretty_text(tokens: Seq<TokenView>) -> Seq<char>;

/// `serde_json::to_string_pretty`: the document of `tokens` on indented lines. What
/// stands in the place of a number is read as a document of its own, and is written
/// as `null` where it is none. How the text is laid out is left to that function; claimed is that it depends on the document alone, and
/// that a document which was read, with no fractions in it, is read back from the
/// text as it was. A fraction may be read back as one next to it.
#[verifier::external_body]
fn write_pretty(tokens: &Vec<JsonToken>) -> (r: String)
    requires
        tree_of(views(tokens@)) is Some,
    ensures
        r@ == pretty_text(views(tokens@)),
        was_read(views(tokens@)) && has_whole_numbers(views(tokens@)) ==> parsed_tokens(r@)
            == Some(views(tokens@)),
{
    let mut stack: Vec<Value> = Vec::new();
    for token in tokens.iter().rev() {
        let value = match token {
            JsonToken::Null => Value::Null,
            JsonToken::Bool(b) => Value::from(*b),
            JsonToken::Number(n) => serde_json::from_str(n).unwrap_or_default(),
            JsonToken::Str(s) => Value::from(s.as_str()),
            JsonToken::Array(n) => stack.drain(stack.len() - n..).rev().collect(),
            JsonToken::Object(keys) => keys.iter().cloned().zip(stack.drain(stack.len() - keys.len()..).rev()).collect(),
        };
        stack.push(value);
    }
    serde_json::to_string_pretty(&stack.pop()).unwrap_or_default()
}

/// The text that `serde_json::to_string` writes for a document.
pub uninterp spec fn compact_text(tokens: Seq<TokenView>) -> Seq<char>;

/// `serde_json::to_string`: the document of `tokens` on one line. What stands in
/// the place of a number is read as a document of its own, and is written as `null`
/// where it is none. How the text is laid out is left to that function; claimed is
/// only that it depends on the document alone.
#[verifier::external_body]
fn write_compact(tokens: &Vec<JsonToken>) -> (r: String)
    requires
        tree_of(views(tokens@)) is Some,
    ensures
        r@ == compact_text(views(tokens@)),
{
    let mut stack: Vec<Value> = Vec::new();
    for token in tokens.iter().rev() {
        let value = match token {
            JsonToken::Null => Value::Null,
            JsonToken::Bool(b) => Value::from(*b),
            JsonToken::Number(n) => serde_json::from_str(n).unwrap_or_default(),
            JsonToken::Str(s) => Value::from(s.as_str()),
            JsonToken::Array(n) => stack.drain(stack.len() - n..).rev().collect(),
            JsonToken::Object(keys) => keys.iter().cloned().zip(stack.drain(stack.len() - keys.len()..).rev()).collect(),
        };
        stack.push(value);
    }
    serde_json::to_string(&stack.pop()).unwrap_or_default()
}

/// A document on one line.
pub open spec fn compact(j: JsonView) -> Seq<char> {
    compact_text(tokens_of(j))
}

/// The document that a text is, where it is one.
pub open spec fn parsed(text: Seq<char>) -> Option<JsonView> {
    match parsed_tokens(text) {
        Some(t) => tree_of(t),
        None => None,
    }
}

/// A document on indented lines.
pub open spec fn pretty(j: JsonView) -> Seq<char> {
    pretty_text(tokens_of(j))
}

/// Whether a document is one that some text was read as, with no fractions in it.
pub open spec fn is_plain(j: JsonView) -> bool {
    was_read(tokens_of(j)) && has_whole_numbers(tokens_of(j))
}

/// A document that was read from a text is one that was read.
pub proof fn lemma_parsed_was_read(text: Seq<char>, j: JsonView)
    requires
        parsed(text) == Some(j),
    ensures
        was_read(tokens_of(j)),
{
    let t = parsed_tokens(text)->0;
    lemma_tokens_of_read(t);
    assert(t =~= tokens_of(j));
}

impl Json {
    /// The document that `text` is, where it is one.
    pub fn parse(text: &str) -> (r: Option<Json>)
        ensures
            match r {
                Some(j) => parsed(text@) == Some(j@),
                None => parsed(text@) is None,
            },
    {
        match parse_tokens(text) {
            Some(tokens) => read_tokens(&tokens),
            None => None,
        }
    }

    /// This document on one line.
    pub fn to_compact(&self) -> (r: String)
        ensures
            r@ == compact(self@),
    {
        let tokens = self.to_tokens();
        proof {
            lemma_tree_of_tokens(self@);
        }
        write_compact(&tokens)
    }

    /// This document on indented lines. What was read and has no fractions in it
    /// can be read back from them.
    pub fn to_pretty(&self) -> (r: String)
        ensures
            r@ == pretty(self@),
            is_plain(self@) ==> parsed(r@) == Some(self@),
    {
        let tokens = self.to_tokens();
        proof {
            lemma_tree_of_tokens(self@);
        }
        write_pretty(&tokens)
    }
}

/// What a list of members holds.
pub open spec fn member_list(v: Seq<(String, Json)>) -> Seq<(Seq<char>, JsonView)> {
    v.map_values(|m: (String, Json)| (m.0@, m.1@))
}

/// The members with one more: in the place of the member with its key, or behind
/// the others.
pub open spec fn put(members: Seq<(Seq<char>, JsonView)>, key: Seq<char>, value: JsonView) -> Seq<
    (Seq<char>, JsonView),
>
    decreases members.len(),
{
    if members.len() == 0 {
        seq![(key, value)]
    } else if members[0].0 == key {
        seq![(key, value)] + members.drop_first()
    } else {
        seq![members[0]] + put(members.drop_first(), key, value)
    }
}

/// What was put under a key is found under it, and nothing else changes.
pub proof fn lemma_put_is_found(
    members: Seq<(Seq<char>, JsonView)>,
    key: Seq<char>,
    value: JsonView,
    other: Seq<char>,
)
    ensures
        lookup(put(members, key, value), other) == if other == key {
            Some(value)
        } else {
            lookup(members, other)
        },
    decreases members.len(),
{
    let after = put(members, key, value);
    if members.len() == 0 {
        assert(after.drop_first() =~= members);
    } else if members[0].0 == key {
        assert(after.drop_first() =~= members.drop_first());
    } else {
        lemma_put_is_found(members.drop_first(), key, value, other);
        assert(after.drop_first() =~= put(members.drop_first(), key, value));
    }
}

/// Where a key is first found, its value is put.
proof fn lemma_put_at(
    members: Seq<(Seq<char>, JsonView)>,
    key: Seq<char>,
    value: JsonView,
    at: int,
)
    requires
        0 <= at <= members.len(),
        forall|k: int| 0 <= k < at ==> (#[trigger] members[k]).0 != key,
        at < members.len() ==> members[at].0 == key,
    ensures
        put(members, key, value) == if at < members.len() {
            members.update(at, (key, value))
        } else {
            members.push((key, value))
        },
    decreases at,
{
    let want = if at < members.len() {
        members.update(at, (key, value))
    } else {
        members.push((key, value))
    };
    if at > 0 {
        let rest = members.drop_first();
        assert forall|k: int| 0 <= k < at - 1 implies (#[trigger] rest[k]).0 != key by {
            assert(rest[k] == members[k + 1]);
        }
        lemma_put_at(rest, key, value, at - 1);
    }
    assert(put(members, key, value) =~= want);
}

/// Puts a member into a list of members.
pub fn put_member(members: &mut Vec<(String, Json)>, key: String, value: Json)
    ensures
        member_list(final(members)@) == put(member_list(old(members)@), key@, value@),
{
    let ghost before = member_list(members@);
    let mut i: usize = 0;
    while i < members.len() && !same(members[i].0.as_str(), key.as_str())
        invariant
            i <= members@.len(),
            before == member_list(members@),
            forall|k: int| 0 <= k < i ==> (#[trigger] before[k]).0 != key@,
        decreases members@.len() - i,
    {
        i = i + 1;
    }
    proof {
        lemma_put_at(before, key@, value@, i as int);
    }
    let ghost pair = (key@, value@);
    if i < members.len() {
        let ghost was = members@;
        members[i] = (key, value);
        proof {
            assert(member_list(members@) =~= before.update(i as int, pair));
        }
    } else {
        members.push((key, value));
        proof {
            assert(member_list(members@) =~= before.push(pair));
        }
    }
}

impl Json {
    /// An object of the given members.
    pub fn object(members: Vec<(String, Json)>) -> (r: Json)
        ensures
            r@ == JsonView::Object(member_list(members@)),
    {
        proof {
            lemma_members_view(members, members.len() as nat);
            assert(members_view(members, members.len() as nat) =~= member_list(members@));
        }
        Json::Object(members)
    }

    /// An array of the given items.
    pub fn array(items: Vec<Json>) -> (r: Json)
        ensures
            r@ == JsonView::Array(views(items@)),
    {
        proof {
            lemma_items_view(items, items.len() as nat);
            assert(items_view(items, items.len() as nat) =~= views(items@));
        }
        Json::Array(items)
    }

    /// A string.
    pub fn string(text: &str) -> (r: Json)
        ensures
            r@ == JsonView::Str(text@),
    {
        Json::Str(text.to_owned())
    }

    /// A number, as it is written.
    pub fn number(text: &str) -> (r: Json)
        ensures
            r@ == JsonView::Number(text@),
    {
        Json::Number(text.to_owned())
    }
}

} // verus!
