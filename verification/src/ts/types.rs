use std::collections::{BTreeMap, HashMap};
use std::sync::Arc;

use vstd::prelude::*;

use super::TSVisitor;
use vstd::string::StrSliceExecFns;
use crate::value::Value;

verus! {

/// A type with a TypeScript rendering.
pub trait TS {
    /// The name under which the type is defined in the bindings, if it is
    /// defined apart rather than written out where it is used.
    spec fn spec_define() -> Option<Seq<char>>;

    /// The type is a set of values that can key a mapped type.
    spec fn spec_enumerable() -> bool;

    /// The text that a visit of the type appends.
    spec fn spec_text() -> Seq<char>;

    /// The definitions that a visit of the type records.
    spec fn spec_defs() -> Map<Seq<char>, Seq<char>>;

    /// The visit may be made on a visitor holding the definitions `m`:
    /// what it records agrees with them.
    spec fn spec_visit_ok(m: Map<Seq<char>, Seq<char>>) -> bool;

    fn define() -> (r: Option<String>)
        ensures
            crate::handler::name_view(r) == Self::spec_define(),
    ;

    fn is_enumerable() -> (r: bool)
        ensures
            r == Self::spec_enumerable(),
    ;

    /// Appends the text of the type, recording the definitions it uses.
    fn visit_ts(visitor: &mut TSVisitor)
        requires
            old(visitor).wf(),
            Self::spec_visit_ok(old(visitor).defs()),
        ensures
            final(visitor).wf(),
            final(visitor).ts@ == old(visitor).ts@ + Self::spec_text(),
            final(visitor).defs() == old(visitor).defs().union_prefer_right(Self::spec_defs()),
    ;
}

/// What appending `T` where it is used writes: its name when it is defined
/// apart, else its text.
pub open spec fn type_ref<T: TS>(define: Option<Seq<char>>) -> Seq<char> {
    match define {
        Some(n) => n,
        None => T::spec_text(),
    }
}

/// The definitions after appending `T` to a visitor holding `m`: those of
/// `T`, and `T` itself when it is defined apart.
pub open spec fn appended_defs<T: TS>(m: Map<Seq<char>, Seq<char>>, define: Option<Seq<char>>) -> Map<
    Seq<char>,
    Seq<char>,
> {
    match define {
        Some(n) => m.union_prefer_right(T::spec_defs()).insert(n, T::spec_text()),
        None => m.union_prefer_right(T::spec_defs()),
    }
}

/// `T` may be appended to a visitor holding `m`. Defined apart, it is
/// visited on its own first, and its definitions, then its own text under
/// its name, must agree with `m`; its text may not be empty.
pub open spec fn append_ok<T: TS>(m: Map<Seq<char>, Seq<char>>, define: Option<Seq<char>>) -> bool {
    match define {
        Some(n) => {
            &&& T::spec_visit_ok(Map::empty())
            &&& T::spec_text().len() > 0
            &&& crate::ts::compatible(m, T::spec_defs())
            &&& m.union_prefer_right(T::spec_defs()).contains_key(n) ==> m.union_prefer_right(T::spec_defs())[n]
                == T::spec_text()
        },
        None => T::spec_visit_ok(m),
    }
}

/// Appends `s` to the text of `visitor`.
fn push_lit(visitor: &mut TSVisitor, s: &str)
    ensures
        final(visitor).ts@ == old(visitor).ts@ + s@,
        final(visitor).definitions == old(visitor).definitions,
        final(visitor).defs() == old(visitor).defs().union_prefer_right(Map::empty()),
{
    visitor.ts.append(s);
    assert(visitor.defs() =~= old(visitor).defs().union_prefer_right(Map::empty()));
}

/// A type defined apart may be appended again once it has been appended,
/// and appending it again records nothing new: only its name is written.
pub proof fn lemma_append_defined_again<T: TS>(m: Map<Seq<char>, Seq<char>>, n: Seq<char>)
    requires
        append_ok::<T>(m, Some(n)),
    ensures
        append_ok::<T>(appended_defs::<T>(m, Some(n)), Some(n)),
        appended_defs::<T>(appended_defs::<T>(m, Some(n)), Some(n)) == appended_defs::<T>(m, Some(n)),
        type_ref::<T>(Some(n)) == n,
{
    let d = T::spec_defs();
    let t = T::spec_text();
    let m1 = appended_defs::<T>(m, Some(n));
    assert(m1 == m.union_prefer_right(d).insert(n, t));
    assert forall|k: Seq<char>| m1.contains_key(k) && d.contains_key(k) implies #[trigger] m1[k] == #[trigger] d[k] by {
        if k == n {
            assert(m.union_prefer_right(d).contains_key(n));
        }
    }
    assert(m1.union_prefer_right(d).contains_key(n));
    if d.contains_key(n) {
        assert(m.union_prefer_right(d)[n] == d[n]);
    }
    assert(m1.union_prefer_right(d)[n] == t);
    assert(m1.union_prefer_right(d).insert(n, t) =~= m1);
}

impl TSVisitor {
    /// Appends the type `T`, written out, or by the name `define` under which
    /// its text is recorded as a definition.
    pub fn visit_ty<T: TS>(&mut self, define: Option<String>)
        requires
            old(self).wf(),
            append_ok::<T>(old(self).defs(), crate::handler::name_view(define)),
        ensures
            final(self).wf(),
            final(self).ts@ == old(self).ts@ + type_ref::<T>(crate::handler::name_view(define)),
            final(self).defs() == appended_defs::<T>(old(self).defs(), crate::handler::name_view(define)),
    {
        match define {
            Some(name) => {
                let ghost m0 = self.defs();
                self.ts.append(name.as_str());
                assert(self.defs() == m0);
                let mut defn = TSVisitor::new();
                proof {
                    assert(defn.wf());
                }
                T::visit_ts(&mut defn);
                proof {
                    assert(defn.defs() =~= T::spec_defs());
                    let pairs = super::def_pairs(defn.definitions@);
                    super::lemma_load_wf(m0, defn.definitions@);
                    super::lemma_load_append(m0, pairs, seq![(name@, defn.ts@)]);
                    super::lemma_load_one(super::load(m0, pairs), name@, defn.ts@);
                    assert(pairs.push((name@, defn.ts@)) =~= pairs + seq![(name@, defn.ts@)]);
                }
                self.load_definition(name, defn);
            },
            None => {
                T::visit_ts(self);
            },
        }
    }

    /// Appends the type `T` where it is used.
    pub fn append_type<T: TS>(&mut self)
        requires
            old(self).wf(),
            append_ok::<T>(old(self).defs(), T::spec_define()),
        ensures
            final(self).wf(),
            final(self).ts@ == old(self).ts@ + type_ref::<T>(T::spec_define()),
            final(self).defs() == appended_defs::<T>(old(self).defs(), T::spec_define()),
    {
        let define = T::define();
        self.visit_ty::<T>(define);
    }
}

/// Whether `char::is_alphanumeric` holds of `c`.
pub uninterp spec fn alphanumeric(c: char) -> bool;

/// Whether `char::is_alphabetic` holds of `c`.
pub uninterp spec fn alphabetic(c: char) -> bool;

/// The hexadecimal digit of `n`, below sixteen, in lower case.
pub open spec fn hex_digit(n: int) -> char {
    if n < 10 {
        (('0' as int) + n) as char
    } else {
        (('a' as int) + n - 10) as char
    }
}

/// How a character is written inside a JSON string: a quote and a
/// backslash behind a backslash, backspace, form feed, line feed, carriage
/// return and tab by their short escapes, the other control characters as
/// `\u00` and two hexadecimal digits, every other character as itself.
pub open spec fn json_escape_char(c: char) -> Seq<char> {
    if c == '"' {
        seq!['\\', '"']
    } else if c == '\\' {
        seq!['\\', '\\']
    } else if c == '\x08' {
        seq!['\\', 'b']
    } else if c == '\x0c' {
        seq!['\\', 'f']
    } else if c == '\n' {
        seq!['\\', 'n']
    } else if c == '\r' {
        seq!['\\', 'r']
    } else if c == '\t' {
        seq!['\\', 't']
    } else if (c as int) < 0x20 {
        seq!['\\', 'u', '0', '0', hex_digit((c as int) / 16), hex_digit((c as int) % 16)]
    } else {
        seq![c]
    }
}

/// The characters of `s`, each written as inside a JSON string.
pub open spec fn json_escape(s: Seq<char>) -> Seq<char>
    decreases s.len(),
{
    if s.len() == 0 {
        Seq::empty()
    } else {
        json_escape(s.drop_last()) + json_escape_char(s.last())
    }
}

/// The JSON text of an optional string: the string between quotes, its
/// characters escaped; or `null`.
pub open spec fn json_name_text(name: Option<Seq<char>>) -> Seq<char> {
    match name {
        Some(s) => seq!['"'] + json_escape(s) + seq!['"'],
        None => "null"@,
    }
}

/// `char::is_alphanumeric`; its result is named, not stated.
#[verifier::external_body]
fn is_alphanumeric(c: char) -> (r: bool)
    ensures
        r == alphanumeric(c),
{
    c.is_alphanumeric()
}

/// `char::is_alphabetic`; its result is named, not stated.
#[verifier::external_body]
fn is_alphabetic(c: char) -> (r: bool)
    ensures
        r == alphabetic(c),
{
    c.is_alphabetic()
}

/// `serde_json::to_string` of an optional string, which cannot fail on one:
/// `null`, or the string between quotes with its quotes, backslashes and
/// control characters escaped as serde_json's compact writer escapes them.
#[verifier::external_body]
pub(crate) fn json_name(name: Option<&str>) -> (r: String)
    ensures
        r@ == json_name_text(crate::handler::str_name_view(name)),
{
    serde_json::to_string(&name).unwrap()
}

/// `name` can stand unquoted as a key: a letter, then letters, digits and
/// underscores.
pub open spec fn is_ident(name: Seq<char>) -> bool {
    &&& forall|i: int| 0 <= i < name.len() ==> alphanumeric(#[trigger] name[i]) || name[i] == '_'
    &&& name.len() > 0
    &&& alphabetic(name[0])
}

/// The key under which a field is written.
pub open spec fn field_key(name: Seq<char>) -> Seq<char> {
    if is_ident(name) {
        name
    } else {
        json_name_text(Some(name))
    }
}

/// The text of a field of type `T`: named, `key:type;`; else `type,`.
pub open spec fn field_text<T: TS>(name: Option<Seq<char>>) -> Seq<char> {
    match name {
        Some(n) => field_key(n) + ":"@ + type_ref::<T>(T::spec_define()) + ";"@,
        None => type_ref::<T>(T::spec_define()) + ","@,
    }
}

fn ident(name: &str) -> (r: bool)
    ensures
        r == is_ident(name@),
{
    let n = name.unicode_len();
    let mut i: usize = 0;
    while i < n
        invariant
            i <= n,
            n == name@.len(),
            forall|k: int| 0 <= k < i ==> alphanumeric(#[trigger] name@[k]) || name@[k] == '_',
        decreases n - i,
    {
        let c = name.get_char(i);
        if !(is_alphanumeric(c) || c == '_') {
            return false;
        }
        i = i + 1;
    }
    if n == 0 {
        return false;
    }
    is_alphabetic(name.get_char(0))
}

/// Appends a field of type `T`, under `name` when it has one.
pub fn visit_field<T: TS>(visitor: &mut TSVisitor, name: Option<&str>)
    requires
        old(visitor).wf(),
        append_ok::<T>(old(visitor).defs(), T::spec_define()),
    ensures
        final(visitor).wf(),
        final(visitor).ts@ == old(visitor).ts@ + field_text::<T>(crate::handler::str_name_view(name)),
        final(visitor).defs() == appended_defs::<T>(old(visitor).defs(), T::spec_define()),
{
    let ghost t0 = visitor.ts@;
    let ghost m0 = visitor.defs();
    if let Some(n) = name {
        if ident(n) {
            push_lit(visitor, n);
        } else {
            let quoted = json_name(Some(n));
            push_lit(visitor, quoted.as_str());
        }
        push_lit(visitor, ":");
    }
    assert(visitor.defs() == m0);
    let ghost t1 = visitor.ts@;
    visitor.append_type::<T>();
    if name.is_some() {
        push_lit(visitor, ";");
    } else {
        push_lit(visitor, ",");
    }
    assert(visitor.ts@ =~= t0 + field_text::<T>(crate::handler::str_name_view(name))) by {
        if name is None {
            assert(t1 == t0);
        }
    }
}

/// A value of any type.
#[derive(Debug, Clone, Copy, PartialEq, Eq, PartialOrd, Ord, Hash)]
pub struct Unknown;

/// A type without values.
pub type Never = std::convert::Infallible;

/// A type given by its TypeScript text.
pub struct LiteralTS(pub String);

impl LiteralTS {
    /// Appends the text.
    pub fn visit(&self, visitor: &mut TSVisitor)
        ensures
            final(visitor).ts@ == old(visitor).ts@ + self.0@,
            final(visitor).definitions == old(visitor).definitions,
    {
        visitor.ts.append(self.0.as_str());
    }
}

/// `a` with `b` put over it, then `c` put over that, is `a` with `b` and `c`
/// put over it together.
pub proof fn lemma_union_assoc(
    a: Map<Seq<char>, Seq<char>>,
    b: Map<Seq<char>, Seq<char>>,
    c: Map<Seq<char>, Seq<char>>,
)
    ensures
        a.union_prefer_right(b).union_prefer_right(c) == a.union_prefer_right(b.union_prefer_right(c)),
{
    assert(a.union_prefer_right(b).union_prefer_right(c) =~= a.union_prefer_right(b.union_prefer_right(c)));
}

/// Appending `T` adds the same definitions whatever was there.
pub proof fn lemma_appended_union<T: TS>(m: Map<Seq<char>, Seq<char>>, define: Option<Seq<char>>)
    ensures
        appended_defs::<T>(m, define) == m.union_prefer_right(appended_defs::<T>(Map::empty(), define)),
{
    assert(Map::<Seq<char>, Seq<char>>::empty().union_prefer_right(T::spec_defs()) =~= T::spec_defs());
    match define {
        Some(n) => {
            assert(m.union_prefer_right(T::spec_defs()).insert(n, T::spec_text()) =~= m.union_prefer_right(
                T::spec_defs().insert(n, T::spec_text()),
            ));
        },
        None => {},
    }
}

/// The text of an array of `T`.
pub open spec fn array_text<T: TS>() -> Seq<char> {
    "("@ + type_ref::<T>(T::spec_define()) + ")[]"@
}

/// Appends an array of `T`.
pub fn visit_array<T: TS>(visitor: &mut TSVisitor)
    requires
        old(visitor).wf(),
        append_ok::<T>(old(visitor).defs(), T::spec_define()),
    ensures
        final(visitor).wf(),
        final(visitor).ts@ == old(visitor).ts@ + array_text::<T>(),
        final(visitor).defs() == appended_defs::<T>(old(visitor).defs(), T::spec_define()),
{
    let ghost t0 = visitor.ts@;
    let ghost m0 = visitor.defs();
    push_lit(visitor, "(");
    assert(visitor.defs() == m0);
    visitor.append_type::<T>();
    push_lit(visitor, ")[]");
    assert(visitor.ts@ =~= t0 + array_text::<T>());
    assert(visitor.defs() =~= appended_defs::<T>(m0, T::spec_define()));
}

/// What a type's fields are: named, or by position, and how many.
#[derive(Debug, Clone, Copy, PartialEq, Eq)]
pub struct StructInfo {
    pub named_fields: bool,
    pub field_count: usize,
}

impl StructInfo {
    /// A struct of one field by position stands for that field alone.
    pub open spec fn is_newtype(self) -> bool {
        !self.named_fields && self.field_count == 1
    }

    /// What comes before the fields: `{` for named fields, `[` for fields
    /// by position, nothing for a newtype.
    pub open spec fn open_text(self) -> Seq<char> {
        if self.is_newtype() {
            Seq::empty()
        } else if self.named_fields {
            "{"@
        } else {
            "["@
        }
    }

    /// What comes after the fields.
    pub open spec fn close_text(self) -> Seq<char> {
        if self.is_newtype() {
            Seq::empty()
        } else if self.named_fields {
            "}"@
        } else {
            "]"@
        }
    }
}

/// Begins the text of a struct or of an enum variant with fields `info`,
/// and says how its fields are then written: each with its name and
/// separator (`true`), or a newtype's one field as it is (`false`).
pub fn struct_open(visitor: &mut TSVisitor, info: StructInfo) -> (each_named: bool)
    requires
        old(visitor).wf(),
    ensures
        final(visitor).wf(),
        final(visitor).ts@ == old(visitor).ts@ + info.open_text(),
        final(visitor).definitions == old(visitor).definitions,
        each_named == !info.is_newtype(),
{
    if !info.named_fields && info.field_count == 1 {
        false
    } else {
        if info.named_fields {
            push_lit(visitor, "{");
        } else {
            push_lit(visitor, "[");
        }
        true
    }
}

/// Ends the text of a struct or of an enum variant with fields `info`.
pub fn struct_close(visitor: &mut TSVisitor, info: StructInfo)
    requires
        old(visitor).wf(),
    ensures
        final(visitor).wf(),
        final(visitor).ts@ == old(visitor).ts@ + info.close_text(),
        final(visitor).definitions == old(visitor).definitions,
{
    if !(!info.named_fields && info.field_count == 1) {
        if info.named_fields {
            push_lit(visitor, "}");
        } else {
            push_lit(visitor, "]");
        }
    } else {
        assert(visitor.ts@ =~= old(visitor).ts@ + info.close_text());
    }
}

/// Begins a variant of an enum of `variant_count` variants: a union
/// member is preceded by `|` when there is more than one.
pub fn variant_open(visitor: &mut TSVisitor, variant_count: usize)
    requires
        old(visitor).wf(),
    ensures
        final(visitor).wf(),
        final(visitor).ts@ == old(visitor).ts@ + (if variant_count > 1 {
            "|"@
        } else {
            Seq::empty()
        }),
        final(visitor).definitions == old(visitor).definitions,
{
    if variant_count > 1 {
        push_lit(visitor, "|");
    } else {
        assert(visitor.ts@ =~= old(visitor).ts@ + Seq::<char>::empty());
    }
}

/// Begins an enum of `variant_count` variants, and says whether its
/// variants are to be written: an enum without variants is `never`.
pub fn visit_enum(visitor: &mut TSVisitor, variant_count: usize) -> (has_variants: bool)
    requires
        old(visitor).wf(),
    ensures
        final(visitor).wf(),
        has_variants == (variant_count > 0),
        final(visitor).ts@ == old(visitor).ts@ + (if variant_count == 0 {
            "never"@
        } else {
            Seq::empty()
        }),
        final(visitor).definitions == old(visitor).definitions,
{
    if variant_count == 0 {
        push_lit(visitor, "never");
        false
    } else {
        assert(visitor.ts@ =~= old(visitor).ts@ + Seq::<char>::empty());
        true
    }
}

/// The text of a map from `K` to `V`: a mapped type when the keys are
/// enumerable, else an index signature.
pub open spec fn map_text<K: TS, V: TS>() -> Seq<char> {
    "{[key"@ + (if K::spec_enumerable() {
        " in "@
    } else {
        ":"@
    }) + type_ref::<K>(K::spec_define()) + "]"@ + (if K::spec_enumerable() {
        "?"@
    } else {
        Seq::empty()
    }) + ":"@ + type_ref::<V>(V::spec_define()) + "}"@
}

/// The definitions after appending a map from `K` to `V` to a visitor
/// holding `m`.
pub open spec fn map_defs<K: TS, V: TS>(m: Map<Seq<char>, Seq<char>>) -> Map<Seq<char>, Seq<char>> {
    appended_defs::<V>(appended_defs::<K>(m, K::spec_define()), V::spec_define())
}

/// A map from `K` to `V` may be appended to a visitor holding `m`.
pub open spec fn map_ok<K: TS, V: TS>(m: Map<Seq<char>, Seq<char>>) -> bool {
    append_ok::<K>(m, K::spec_define()) && append_ok::<V>(appended_defs::<K>(m, K::spec_define()), V::spec_define())
}

/// Of types written in place, a map reads `{[key in K]?:V}` when its keys
/// are enumerable and `{[key:K]:V}` otherwise.
pub proof fn lemma_map_text<K: TS, V: TS>()
    requires
        K::spec_define() is None,
        V::spec_define() is None,
    ensures
        K::spec_enumerable() ==> map_text::<K, V>() == "{[key in "@ + K::spec_text() + "]?:"@ + V::spec_text()
            + "}"@,
        !K::spec_enumerable() ==> map_text::<K, V>() == "{[key:"@ + K::spec_text() + "]:"@ + V::spec_text()
            + "}"@,
{
    reveal_strlit("{[key");
    reveal_strlit(" in ");
    reveal_strlit(":");
    reveal_strlit("]");
    reveal_strlit("?");
    reveal_strlit("}");
    reveal_strlit("{[key in ");
    reveal_strlit("]?:");
    reveal_strlit("{[key:");
    reveal_strlit("]:");
    let k = K::spec_text();
    let v = V::spec_text();
    if K::spec_enumerable() {
        assert("{[key"@ + " in "@ + k + "]"@ + "?"@ + ":"@ + v + "}"@ =~= "{[key in "@ + k + "]?:"@ + v + "}"@);
    } else {
        assert("{[key"@ + ":"@ + k + "]"@ + Seq::<char>::empty() + ":"@ + v + "}"@ =~= "{[key:"@ + k + "]:"@ + v
            + "}"@);
    }
}

/// Appends a map from `K` to `V`.
pub fn visit_map<K: TS, V: TS>(visitor: &mut TSVisitor)
    requires
        old(visitor).wf(),
        map_ok::<K, V>(old(visitor).defs()),
    ensures
        final(visitor).wf(),
        final(visitor).ts@ == old(visitor).ts@ + map_text::<K, V>(),
        final(visitor).defs() == map_defs::<K, V>(old(visitor).defs()),
{
    let ghost t0 = visitor.ts@;
    let ghost m0 = visitor.defs();
    push_lit(visitor, "{[key");
    let enumerable = K::is_enumerable();
    if enumerable {
        push_lit(visitor, " in ");
    } else {
        push_lit(visitor, ":");
    }
    assert(visitor.defs() == m0);
    visitor.append_type::<K>();
    push_lit(visitor, "]");
    if enumerable {
        push_lit(visitor, "?");
    }
    let ghost t1 = visitor.ts@;
    let ghost m1 = visitor.defs();
    push_lit(visitor, ":");
    assert(visitor.defs() == m1);
    visitor.append_type::<V>();
    push_lit(visitor, "}");
    assert(visitor.ts@ =~= t0 + map_text::<K, V>()) by {
        if enumerable {
            assert(t1 =~= t0 + "{[key"@ + " in "@ + type_ref::<K>(K::spec_define()) + "]"@ + "?"@);
        } else {
            assert(t1 =~= t0 + "{[key"@ + ":"@ + type_ref::<K>(K::spec_define()) + "]"@);
            assert(t1 =~= t0 + "{[key"@ + ":"@ + type_ref::<K>(K::spec_define()) + "]"@ + Seq::<char>::empty());
        }
    }
    assert(visitor.defs() =~= map_defs::<K, V>(m0));
}

impl<T: TS> TS for Vec<T> {
    open spec fn spec_define() -> Option<Seq<char>> {
        None
    }

    open spec fn spec_enumerable() -> bool {
        false
    }

    open spec fn spec_text() -> Seq<char> {
        array_text::<T>()
    }

    open spec fn spec_defs() -> Map<Seq<char>, Seq<char>> {
        appended_defs::<T>(Map::empty(), T::spec_define())
    }

    open spec fn spec_visit_ok(m: Map<Seq<char>, Seq<char>>) -> bool {
        append_ok::<T>(m, T::spec_define())
    }

    fn define() -> (r: Option<String>) {
        None
    }

    fn is_enumerable() -> (r: bool) {
        false
    }

    fn visit_ts(visitor: &mut TSVisitor) {
        proof {
            lemma_appended_union::<T>(visitor.defs(), T::spec_define());
        }
        visit_array::<T>(visitor);
    }
}

impl<K: TS, V: TS> TS for HashMap<K, V> {
    open spec fn spec_define() -> Option<Seq<char>> {
        None
    }

    open spec fn spec_enumerable() -> bool {
        false
    }

    open spec fn spec_text() -> Seq<char> {
        map_text::<K, V>()
    }

    open spec fn spec_defs() -> Map<Seq<char>, Seq<char>> {
        map_defs::<K, V>(Map::empty())
    }

    open spec fn spec_visit_ok(m: Map<Seq<char>, Seq<char>>) -> bool {
        map_ok::<K, V>(m)
    }

    fn define() -> (r: Option<String>) {
        None
    }

    fn is_enumerable() -> (r: bool) {
        false
    }

    fn visit_ts(visitor: &mut TSVisitor) {
        proof {
            lemma_map_defs_union::<K, V>(visitor.defs());
        }
        visit_map::<K, V>(visitor);
    }
}

impl<K: TS, V: TS> TS for BTreeMap<K, V> {
    open spec fn spec_define() -> Option<Seq<char>> {
        None
    }

    open spec fn spec_enumerable() -> bool {
        false
    }

    open spec fn spec_text() -> Seq<char> {
        map_text::<K, V>()
    }

    open spec fn spec_defs() -> Map<Seq<char>, Seq<char>> {
        map_defs::<K, V>(Map::empty())
    }

    open spec fn spec_visit_ok(m: Map<Seq<char>, Seq<char>>) -> bool {
        map_ok::<K, V>(m)
    }

    fn define() -> (r: Option<String>) {
        None
    }

    fn is_enumerable() -> (r: bool) {
        false
    }

    fn visit_ts(visitor: &mut TSVisitor) {
        proof {
            lemma_map_defs_union::<K, V>(visitor.defs());
        }
        visit_map::<K, V>(visitor);
    }
}

/// Appending a map adds the same definitions whatever was there.
pub proof fn lemma_map_defs_union<K: TS, V: TS>(m: Map<Seq<char>, Seq<char>>)
    ensures
        map_defs::<K, V>(m) == m.union_prefer_right(map_defs::<K, V>(Map::empty())),
{
    let e = Map::<Seq<char>, Seq<char>>::empty();
    let ak = appended_defs::<K>(e, K::spec_define());
    let av = appended_defs::<V>(e, V::spec_define());
    lemma_appended_union::<K>(m, K::spec_define());
    lemma_appended_union::<V>(appended_defs::<K>(m, K::spec_define()), V::spec_define());
    lemma_appended_union::<V>(ak, V::spec_define());
    lemma_union_assoc(m, ak, av);
}

impl<T: TS> TS for Box<T> {
    open spec fn spec_define() -> Option<Seq<char>> {
        T::spec_define()
    }

    open spec fn spec_enumerable() -> bool {
        T::spec_enumerable()
    }

    open spec fn spec_text() -> Seq<char> {
        T::spec_text()
    }

    open spec fn spec_defs() -> Map<Seq<char>, Seq<char>> {
        T::spec_defs()
    }

    open spec fn spec_visit_ok(m: Map<Seq<char>, Seq<char>>) -> bool {
        T::spec_visit_ok(m)
    }

    fn define() -> (r: Option<String>) {
        T::define()
    }

    fn is_enumerable() -> (r: bool) {
        T::is_enumerable()
    }

    fn visit_ts(visitor: &mut TSVisitor) {
        T::visit_ts(visitor);
    }
}

impl<T: TS> TS for Arc<T> {
    open spec fn spec_define() -> Option<Seq<char>> {
        T::spec_define()
    }

    open spec fn spec_enumerable() -> bool {
        T::spec_enumerable()
    }

    open spec fn spec_text() -> Seq<char> {
        T::spec_text()
    }

    open spec fn spec_defs() -> Map<Seq<char>, Seq<char>> {
        T::spec_defs()
    }

    open spec fn spec_visit_ok(m: Map<Seq<char>, Seq<char>>) -> bool {
        T::spec_visit_ok(m)
    }

    fn define() -> (r: Option<String>) {
        T::define()
    }

    fn is_enumerable() -> (r: bool) {
        T::is_enumerable()
    }

    fn visit_ts(visitor: &mut TSVisitor) {
        T::visit_ts(visitor);
    }
}

impl TS for bool {
    open spec fn spec_define() -> Option<Seq<char>> {
        None
    }

    open spec fn spec_enumerable() -> bool {
        false
    }

    open spec fn spec_text() -> Seq<char> {
        "boolean"@
    }

    open spec fn spec_defs() -> Map<Seq<char>, Seq<char>> {
        Map::empty()
    }

    open spec fn spec_visit_ok(m: Map<Seq<char>, Seq<char>>) -> bool {
        true
    }

    fn define() -> (r: Option<String>) {
        None
    }

    fn is_enumerable() -> (r: bool) {
        false
    }

    fn visit_ts(visitor: &mut TSVisitor) {
        push_lit(visitor, "boolean");
    }
}

impl TS for String {
    open spec fn spec_define() -> Option<Seq<char>> {
        None
    }

    open spec fn spec_enumerable() -> bool {
        false
    }

    open spec fn spec_text() -> Seq<char> {
        "string"@
    }

    open spec fn spec_defs() -> Map<Seq<char>, Seq<char>> {
        Map::empty()
    }

    open spec fn spec_visit_ok(m: Map<Seq<char>, Seq<char>>) -> bool {
        true
    }

    fn define() -> (r: Option<String>) {
        None
    }

    fn is_enumerable() -> (r: bool) {
        false
    }

    fn visit_ts(visitor: &mut TSVisitor) {
        push_lit(visitor, "string");
    }
}

impl TS for str {
    open spec fn spec_define() -> Option<Seq<char>> {
        None
    }

    open spec fn spec_enumerable() -> bool {
        false
    }

    open spec fn spec_text() -> Seq<char> {
        "string"@
    }

    open spec fn spec_defs() -> Map<Seq<char>, Seq<char>> {
        Map::empty()
    }

    open spec fn spec_visit_ok(m: Map<Seq<char>, Seq<char>>) -> bool {
        true
    }

    fn define() -> (r: Option<String>) {
        None
    }

    fn is_enumerable() -> (r: bool) {
        false
    }

    fn visit_ts(visitor: &mut TSVisitor) {
        push_lit(visitor, "string");
    }
}

impl TS for usize {
    open spec fn spec_define() -> Option<Seq<char>> {
        None
    }

    open spec fn spec_enumerable() -> bool {
        false
    }

    open spec fn spec_text() -> Seq<char> {
        "number"@
    }

    open spec fn spec_defs() -> Map<Seq<char>, Seq<char>> {
        Map::empty()
    }

    open spec fn spec_visit_ok(m: Map<Seq<char>, Seq<char>>) -> bool {
        true
    }

    fn define() -> (r: Option<String>) {
        None
    }

    fn is_enumerable() -> (r: bool) {
        false
    }

    fn visit_ts(visitor: &mut TSVisitor) {
        push_lit(visitor, "number");
    }
}

impl TS for u8 {
    open spec fn spec_define() -> Option<Seq<char>> {
        None
    }

    open spec fn spec_enumerable() -> bool {
        false
    }

    open spec fn spec_text() -> Seq<char> {
        "number"@
    }

    open spec fn spec_defs() -> Map<Seq<char>, Seq<char>> {
        Map::empty()
    }

    open spec fn spec_visit_ok(m: Map<Seq<char>, Seq<char>>) -> bool {
        true
    }

    fn define() -> (r: Option<String>) {
        None
    }

    fn is_enumerable() -> (r: bool) {
        false
    }

    fn visit_ts(visitor: &mut TSVisitor) {
        push_lit(visitor, "number");
    }
}

impl TS for u16 {
    open spec fn spec_define() -> Option<Seq<char>> {
        None
    }

    open spec fn spec_enumerable() -> bool {
        false
    }

    open spec fn spec_text() -> Seq<char> {
        "number"@
    }

    open spec fn spec_defs() -> Map<Seq<char>, Seq<char>> {
        Map::empty()
    }

    open spec fn spec_visit_ok(m: Map<Seq<char>, Seq<char>>) -> bool {
        true
    }

    fn define() -> (r: Option<String>) {
        None
    }

    fn is_enumerable() -> (r: bool) {
        false
    }

    fn visit_ts(visitor: &mut TSVisitor) {
        push_lit(visitor, "number");
    }
}

impl TS for u32 {
    open spec fn spec_define() -> Option<Seq<char>> {
        None
    }

    open spec fn spec_enumerable() -> bool {
        false
    }

    open spec fn spec_text() -> Seq<char> {
        "number"@
    }

    open spec fn spec_defs() -> Map<Seq<char>, Seq<char>> {
        Map::empty()
    }

    open spec fn spec_visit_ok(m: Map<Seq<char>, Seq<char>>) -> bool {
        true
    }

    fn define() -> (r: Option<String>) {
        None
    }

    fn is_enumerable() -> (r: bool) {
        false
    }

    fn visit_ts(visitor: &mut TSVisitor) {
        push_lit(visitor, "number");
    }
}

impl TS for isize {
    open spec fn spec_define() -> Option<Seq<char>> {
        None
    }

    open spec fn spec_enumerable() -> bool {
        false
    }

    open spec fn spec_text() -> Seq<char> {
        "number"@
    }

    open spec fn spec_defs() -> Map<Seq<char>, Seq<char>> {
        Map::empty()
    }

    open spec fn spec_visit_ok(m: Map<Seq<char>, Seq<char>>) -> bool {
        true
    }

    fn define() -> (r: Option<String>) {
        None
    }

    fn is_enumerable() -> (r: bool) {
        false
    }

    fn visit_ts(visitor: &mut TSVisitor) {
        push_lit(visitor, "number");
    }
}

impl TS for i8 {
    open spec fn spec_define() -> Option<Seq<char>> {
        None
    }

    open spec fn spec_enumerable() -> bool {
        false
    }

    open spec fn spec_text() -> Seq<char> {
        "number"@
    }

    open spec fn spec_defs() -> Map<Seq<char>, Seq<char>> {
        Map::empty()
    }

    open spec fn spec_visit_ok(m: Map<Seq<char>, Seq<char>>) -> bool {
        true
    }

    fn define() -> (r: Option<String>) {
        None
    }

    fn is_enumerable() -> (r: bool) {
        false
    }

    fn visit_ts(visitor: &mut TSVisitor) {
        push_lit(visitor, "number");
    }
}

impl TS for i16 {
    open spec fn spec_define() -> Option<Seq<char>> {
        None
    }

    open spec fn spec_enumerable() -> bool {
        false
    }

    open spec fn spec_text() -> Seq<char> {
        "number"@
    }

    open spec fn spec_defs() -> Map<Seq<char>, Seq<char>> {
        Map::empty()
    }

    open spec fn spec_visit_ok(m: Map<Seq<char>, Seq<char>>) -> bool {
        true
    }

    fn define() -> (r: Option<String>) {
        None
    }

    fn is_enumerable() -> (r: bool) {
        false
    }

    fn visit_ts(visitor: &mut TSVisitor) {
        push_lit(visitor, "number");
    }
}

impl TS for i32 {
    open spec fn spec_define() -> Option<Seq<char>> {
        None
    }

    open spec fn spec_enumerable() -> bool {
        false
    }

    open spec fn spec_text() -> Seq<char> {
        "number"@
    }

    open spec fn spec_defs() -> Map<Seq<char>, Seq<char>> {
        Map::empty()
    }

    open spec fn spec_visit_ok(m: Map<Seq<char>, Seq<char>>) -> bool {
        true
    }

    fn define() -> (r: Option<String>) {
        None
    }

    fn is_enumerable() -> (r: bool) {
        false
    }

    fn visit_ts(visitor: &mut TSVisitor) {
        push_lit(visitor, "number");
    }
}

impl TS for u64 {
    open spec fn spec_define() -> Option<Seq<char>> {
        None
    }

    open spec fn spec_enumerable() -> bool {
        false
    }

    open spec fn spec_text() -> Seq<char> {
        "bigint"@
    }

    open spec fn spec_defs() -> Map<Seq<char>, Seq<char>> {
        Map::empty()
    }

    open spec fn spec_visit_ok(m: Map<Seq<char>, Seq<char>>) -> bool {
        true
    }

    fn define() -> (r: Option<String>) {
        None
    }

    fn is_enumerable() -> (r: bool) {
        false
    }

    fn visit_ts(visitor: &mut TSVisitor) {
        push_lit(visitor, "bigint");
    }
}

impl TS for u128 {
    open spec fn spec_define() -> Option<Seq<char>> {
        None
    }

    open spec fn spec_enumerable() -> bool {
        false
    }

    open spec fn spec_text() -> Seq<char> {
        "bigint"@
    }

    open spec fn spec_defs() -> Map<Seq<char>, Seq<char>> {
        Map::empty()
    }

    open spec fn spec_visit_ok(m: Map<Seq<char>, Seq<char>>) -> bool {
        true
    }

    fn define() -> (r: Option<String>) {
        None
    }

    fn is_enumerable() -> (r: bool) {
        false
    }

    fn visit_ts(visitor: &mut TSVisitor) {
        push_lit(visitor, "bigint");
    }
}

impl TS for i64 {
    open spec fn spec_define() -> Option<Seq<char>> {
        None
    }

    open spec fn spec_enumerable() -> bool {
        false
    }

    open spec fn spec_text() -> Seq<char> {
        "bigint"@
    }

    open spec fn spec_defs() -> Map<Seq<char>, Seq<char>> {
        Map::empty()
    }

    open spec fn spec_visit_ok(m: Map<Seq<char>, Seq<char>>) -> bool {
        true
    }

    fn define() -> (r: Option<String>) {
        None
    }

    fn is_enumerable() -> (r: bool) {
        false
    }

    fn visit_ts(visitor: &mut TSVisitor) {
        push_lit(visitor, "bigint");
    }
}

impl TS for i128 {
    open spec fn spec_define() -> Option<Seq<char>> {
        None
    }

    open spec fn spec_enumerable() -> bool {
        false
    }

    open spec fn spec_text() -> Seq<char> {
        "bigint"@
    }

    open spec fn spec_defs() -> Map<Seq<char>, Seq<char>> {
        Map::empty()
    }

    open spec fn spec_visit_ok(m: Map<Seq<char>, Seq<char>>) -> bool {
        true
    }

    fn define() -> (r: Option<String>) {
        None
    }

    fn is_enumerable() -> (r: bool) {
        false
    }

    fn visit_ts(visitor: &mut TSVisitor) {
        push_lit(visitor, "bigint");
    }
}

impl TS for Unknown {
    open spec fn spec_define() -> Option<Seq<char>> {
        None
    }

    open spec fn spec_enumerable() -> bool {
        false
    }

    open spec fn spec_text() -> Seq<char> {
        "unknown"@
    }

    open spec fn spec_defs() -> Map<Seq<char>, Seq<char>> {
        Map::empty()
    }

    open spec fn spec_visit_ok(m: Map<Seq<char>, Seq<char>>) -> bool {
        true
    }

    fn define() -> (r: Option<String>) {
        None
    }

    fn is_enumerable() -> (r: bool) {
        false
    }

    fn visit_ts(visitor: &mut TSVisitor) {
        push_lit(visitor, "unknown");
    }
}

impl TS for Value {
    open spec fn spec_define() -> Option<Seq<char>> {
        None
    }

    open spec fn spec_enumerable() -> bool {
        false
    }

    open spec fn spec_text() -> Seq<char> {
        "unknown"@
    }

    open spec fn spec_defs() -> Map<Seq<char>, Seq<char>> {
        Map::empty()
    }

    open spec fn spec_visit_ok(m: Map<Seq<char>, Seq<char>>) -> bool {
        true
    }

    fn define() -> (r: Option<String>) {
        None
    }

    fn is_enumerable() -> (r: bool) {
        false
    }

    fn visit_ts(visitor: &mut TSVisitor) {
        push_lit(visitor, "unknown");
    }
}

impl TS for Never {
    open spec fn spec_define() -> Option<Seq<char>> {
        None
    }

    open spec fn spec_enumerable() -> bool {
        false
    }

    open spec fn spec_text() -> Seq<char> {
        "never"@
    }

    open spec fn spec_defs() -> Map<Seq<char>, Seq<char>> {
        Map::empty()
    }

    open spec fn spec_visit_ok(m: Map<Seq<char>, Seq<char>>) -> bool {
        true
    }

    fn define() -> (r: Option<String>) {
        None
    }

    fn is_enumerable() -> (r: bool) {
        false
    }

    fn visit_ts(visitor: &mut TSVisitor) {
        push_lit(visitor, "never");
    }
}

} // verus!
