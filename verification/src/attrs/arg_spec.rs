use vstd::prelude::*;

use super::command_spec::{fail, given, item_named, ErrV, ItemForm};
use super::options::{ArgOptions, ParamType};
use super::syntax::{lit_span, nested_span, Attribute, Lit, Meta, MetaList, MetaNameValue, NestedMeta, Pat, PatType, Path};

verus! {

/// The options an argument starts with: its type, and its name when its
/// pattern is an identifier.
pub open spec fn initial_arg(arg: PatType) -> ArgOptions {
    ArgOptions {
        ty: arg.ty,
        optional: false,
        check_is_present: false,
        help: None,
        name: match arg.pat {
            Pat::Ident(i) => Some(i),
            Pat::Other(_) => None,
        },
        rename: None,
        short: None,
        long: None,
        parse: None,
        default: None,
        count: None,
        multiple: None,
        stdin: None,
    }
}

/// An item `name(..)` of the `arg` attribute.
pub open spec fn arg_list_step(o: ArgOptions, l: MetaList) -> Result<ArgOptions, ErrV> {
    let p = l.path;
    if p.spec_is_ident("parse"@) {
        if l.nested@.len() != 1 {
            fail(l.nested_span, "`parse` can only have one implementation"@)
        } else {
            match l.nested@[0] {
                NestedMeta::Meta(Meta::Path(pi)) => if o.parse is Some {
                    fail(l.span, "duplicate argument `parse`"@)
                } else {
                    Ok(ArgOptions { parse: Some(pi), ..o })
                },
                a => fail(nested_span(a), "`parse` implementation must be a path"@),
            }
        }
    } else if p.spec_is_ident("stdin"@) {
        fail(p.span, "`stdin` does not take any arguments"@)
    } else if p.spec_is_ident("count"@) {
        fail(p.span, "`count` does not take any arguments"@)
    } else if p.spec_is_ident("multiple"@) {
        fail(p.span, "`multiple` does not take any arguments"@)
    } else if p.spec_is_ident("help"@) {
        fail(p.span, "`help` does not take any arguments"@)
    } else if p.spec_is_ident("rename"@) {
        fail(p.span, "`rename` does not take any arguments"@)
    } else if p.spec_is_ident("short"@) {
        fail(p.span, "`short` does not take any arguments"@)
    } else if p.spec_is_ident("long"@) {
        fail(p.span, "`long` does not take any arguments"@)
    } else if p.spec_is_ident("default"@) {
        fail(p.span, "`default` does not take any arguments"@)
    } else {
        fail(l.span, "unknown argument"@)
    }
}

/// An item given as a bare path.
pub open spec fn arg_path_step(o: ArgOptions, p: Path) -> Result<ArgOptions, ErrV> {
    if p.spec_is_ident("parse"@) {
        fail(p.span, "`parse` requires an argument"@)
    } else if p.spec_is_ident("stdin"@) {
        if o.short is Some {
            fail(p.span, "`stdin` and `short` are mutually exclusive"@)
        } else if o.long is Some {
            fail(p.span, "`stdin` and `long` are mutually exclusive"@)
        } else if o.help is Some {
            fail(p.span, "`stdin` and `help` are mutually exclusive"@)
        } else if o.count is Some {
            fail(p.span, "`stdin` and `count` are mutually exclusive"@)
        } else if o.multiple is Some {
            fail(p.span, "`stdin` and `multiple` are mutually exclusive"@)
        } else {
            Ok(ArgOptions { stdin: Some(p), ..o })
        }
    } else if p.spec_is_ident("count"@) {
        if o.stdin is Some {
            fail(p.span, "`stdin` and `count` are mutually exclusive"@)
        } else if o.multiple is Some {
            fail(p.span, "`count` and `multiple` are mutually exclusive"@)
        } else {
            Ok(ArgOptions { count: Some(p), ..o })
        }
    } else if p.spec_is_ident("multiple"@) {
        if o.stdin is Some {
            fail(p.span, "`stdin` and `multiple` are mutually exclusive"@)
        } else if o.count is Some {
            fail(p.span, "`count` and `multiple` are mutually exclusive"@)
        } else {
            Ok(ArgOptions { multiple: Some(p), ..o })
        }
    } else if p.spec_is_ident("help"@) {
        fail(p.span, "`help` must be assigned to"@)
    } else if p.spec_is_ident("rename"@) {
        fail(p.span, "`rename` must be assigned to"@)
    } else if p.spec_is_ident("short"@) {
        fail(p.span, "`short` must be assigned to"@)
    } else if p.spec_is_ident("long"@) {
        fail(p.span, "`long` must be assigned to"@)
    } else if p.spec_is_ident("default"@) {
        fail(p.span, "`default` must be assigned to"@)
    } else {
        fail(p.span, "unknown argument"@)
    }
}

/// An item given as `name = literal`.
pub open spec fn arg_name_value_step(o: ArgOptions, nv: MetaNameValue) -> Result<ArgOptions, ErrV> {
    let p = nv.path;
    if p.spec_is_ident("parse"@) {
        fail(p.span, "`parse` cannot be assigned to"@)
    } else if p.spec_is_ident("stdin"@) {
        fail(p.span, "`stdin` cannot be assigned to"@)
    } else if p.spec_is_ident("count"@) {
        fail(p.span, "`count` cannot be assigned to"@)
    } else if p.spec_is_ident("help"@) {
        match nv.lit {
            Lit::Str(h) => if o.help is Some {
                fail(h.span, "duplicate argument `help`"@)
            } else if o.stdin is Some {
                fail(h.span, "`stdin` and `help` are mutually exclusive"@)
            } else {
                Ok(ArgOptions { help: Some(h), ..o })
            },
            _ => fail(lit_span(nv.lit), "help message must be a string"@),
        }
    } else if p.spec_is_ident("rename"@) {
        match nv.lit {
            Lit::Str(r) => if o.rename is Some {
                fail(r.span, "duplicate argument `rename`"@)
            } else {
                Ok(ArgOptions { rename: Some(r), ..o })
            },
            _ => fail(lit_span(nv.lit), "`rename` must be a string"@),
        }
    } else if p.spec_is_ident("short"@) {
        match nv.lit {
            Lit::Str(s) => if vstd::utf8::encode_utf8(s.value@).len() != 1 {
                fail(s.span, "`short` value must be 1 character"@)
            } else if o.short is Some {
                fail(s.span, "duplicate argument `short`"@)
            } else if o.stdin is Some {
                fail(s.span, "`stdin` and `short` are mutually exclusive"@)
            } else {
                Ok(ArgOptions { short: Some(s), ..o })
            },
            _ => fail(lit_span(nv.lit), "`short` must be a string"@),
        }
    } else if p.spec_is_ident("long"@) {
        match nv.lit {
            Lit::Str(s) => if o.long is Some {
                fail(s.span, "duplicate argument `long`"@)
            } else if o.stdin is Some {
                fail(s.span, "`stdin` and `long` are mutually exclusive"@)
            } else {
                Ok(ArgOptions { long: Some(s), ..o })
            },
            _ => fail(lit_span(nv.lit), "`long` must be a string"@),
        }
    } else if p.spec_is_ident("default"@) {
        match nv.lit {
            Lit::Str(d) => if o.default is Some {
                fail(d.span, "duplicate argument `default`"@)
            } else {
                Ok(ArgOptions { default: Some(d), ..o })
            },
            _ => fail(lit_span(nv.lit), "`default` must be a string"@),
        }
    } else {
        fail(nv.span, "unknown argument"@)
    }
}

/// One item of the `arg` attribute applied to the options `o`.
pub open spec fn arg_step(o: ArgOptions, item: NestedMeta) -> Result<ArgOptions, ErrV> {
    match item {
        NestedMeta::Meta(Meta::List(l)) => arg_list_step(o, l),
        NestedMeta::Meta(Meta::Path(p)) => arg_path_step(o, p),
        NestedMeta::Meta(Meta::NameValue(nv)) => arg_name_value_step(o, nv),
        NestedMeta::Lit(l) => fail(lit_span(l), "unknown argument"@),
    }
}

/// The items from the `i`-th on applied in turn.
pub open spec fn arg_from(o: ArgOptions, items: Seq<NestedMeta>, i: int) -> Result<ArgOptions, ErrV>
    decreases items.len() - i,
{
    if i < 0 || i >= items.len() {
        Ok(o)
    } else {
        match arg_step(o, items[i]) {
            Ok(o2) => arg_from(o2, items, i + 1),
            Err(e) => Err(e),
        }
    }
}

/// The options that the `arg` attribute `attr` gives the parameter `arg`:
/// an argument needs a name, so its pattern must be an identifier.
pub open spec fn spec_arg_attr(attr: Attribute, arg: PatType) -> Result<ArgOptions, ErrV> {
    let o = match attr.meta {
        Err(e) => Err((e.span, e.message@)),
        Ok(Meta::List(l)) => arg_from(initial_arg(arg), l.nested@, 0),
        Ok(Meta::Path(_)) => Ok(initial_arg(arg)),
        Ok(Meta::NameValue(nv)) => fail(nv.span, "`arg` cannot be assigned to"@),
    };
    match o {
        Ok(opt) => if opt.name is None {
            fail(arg.span, "cannot infer name for pattern argument"@)
        } else {
            Ok(opt)
        },
        Err(e) => Err(e),
    }
}

/// The options of an argument that an item sets.
#[derive(Debug, Clone, Copy, PartialEq, Eq)]
pub enum ArgKey {
    /// `help = ".."`.
    Help,
    /// `short = ".."`.
    Short,
    /// `long = ".."`.
    Long,
    /// `rename = ".."`.
    Rename,
    /// `default = ".."`.
    Default,
    /// `parse(..)`.
    Parse,
    /// `stdin`.
    Stdin,
    /// `count`.
    Count,
    /// `multiple`.
    Multiple,
}

/// The item that sets the option `k`: its form and its name.
pub open spec fn arg_key_item(k: ArgKey) -> (ItemForm, Seq<char>) {
    match k {
        ArgKey::Help => (ItemForm::Assign, "help"@),
        ArgKey::Short => (ItemForm::Assign, "short"@),
        ArgKey::Long => (ItemForm::Assign, "long"@),
        ArgKey::Rename => (ItemForm::Assign, "rename"@),
        ArgKey::Default => (ItemForm::Assign, "default"@),
        ArgKey::Parse => (ItemForm::Call, "parse"@),
        ArgKey::Stdin => (ItemForm::Word, "stdin"@),
        ArgKey::Count => (ItemForm::Word, "count"@),
        ArgKey::Multiple => (ItemForm::Word, "multiple"@),
    }
}

/// The options `o` have the option `k` set.
pub open spec fn arg_set(o: ArgOptions, k: ArgKey) -> bool {
    match k {
        ArgKey::Help => o.help is Some,
        ArgKey::Short => o.short is Some,
        ArgKey::Long => o.long is Some,
        ArgKey::Rename => o.rename is Some,
        ArgKey::Default => o.default is Some,
        ArgKey::Parse => o.parse is Some,
        ArgKey::Stdin => o.stdin is Some,
        ArgKey::Count => o.count is Some,
        ArgKey::Multiple => o.multiple is Some,
    }
}

/// The items of an `arg` attribute: those in its brackets, none for a bare
/// `#[arg]`.
pub open spec fn arg_items(attr: Attribute) -> Seq<NestedMeta> {
    match attr.meta {
        Ok(Meta::List(l)) => l.nested@,
        _ => Seq::empty(),
    }
}

/// The names of the items of the `arg` attribute differ.
proof fn lemma_arg_names()
    ensures
        "parse"@ != "stdin"@,
        "parse"@ != "count"@,
        "parse"@ != "multiple"@,
        "parse"@ != "help"@,
        "parse"@ != "rename"@,
        "parse"@ != "short"@,
        "parse"@ != "long"@,
        "parse"@ != "default"@,
        "stdin"@ != "count"@,
        "stdin"@ != "multiple"@,
        "stdin"@ != "help"@,
        "stdin"@ != "rename"@,
        "stdin"@ != "short"@,
        "stdin"@ != "long"@,
        "stdin"@ != "default"@,
        "count"@ != "multiple"@,
        "count"@ != "help"@,
        "count"@ != "rename"@,
        "count"@ != "short"@,
        "count"@ != "long"@,
        "count"@ != "default"@,
        "multiple"@ != "help"@,
        "multiple"@ != "rename"@,
        "multiple"@ != "short"@,
        "multiple"@ != "long"@,
        "multiple"@ != "default"@,
        "help"@ != "rename"@,
        "help"@ != "short"@,
        "help"@ != "long"@,
        "help"@ != "default"@,
        "rename"@ != "short"@,
        "rename"@ != "long"@,
        "rename"@ != "default"@,
        "short"@ != "long"@,
        "short"@ != "default"@,
        "long"@ != "default"@,
{
    reveal_strlit("parse");
    reveal_strlit("stdin");
    reveal_strlit("count");
    reveal_strlit("multiple");
    reveal_strlit("help");
    reveal_strlit("rename");
    reveal_strlit("short");
    reveal_strlit("long");
    reveal_strlit("default");
    assert("parse"@.len() == 5 && "parse"@[0] == 'p' && "parse"@[1] == 'a');
    assert("stdin"@.len() == 5 && "stdin"@[0] == 's' && "stdin"@[1] == 't');
    assert("count"@.len() == 5 && "count"@[0] == 'c' && "count"@[1] == 'o');
    assert("multiple"@.len() == 8 && "multiple"@[0] == 'm' && "multiple"@[1] == 'u');
    assert("help"@.len() == 4 && "help"@[0] == 'h' && "help"@[1] == 'e');
    assert("rename"@.len() == 6 && "rename"@[0] == 'r' && "rename"@[1] == 'e');
    assert("short"@.len() == 5 && "short"@[0] == 's' && "short"@[1] == 'h');
    assert("long"@.len() == 4 && "long"@[0] == 'l' && "long"@[1] == 'o');
    assert("default"@.len() == 7 && "default"@[0] == 'd' && "default"@[1] == 'e');
}

/// An item that is accepted sets the option it names, and leaves the
/// type, the name and every other option as they were.
proof fn lemma_arg_step_sets(o: ArgOptions, a: NestedMeta, k: ArgKey)
    requires
        arg_step(o, a) is Ok,
    ensures
        arg_set(arg_step(o, a)->Ok_0, k) == (arg_set(o, k) || item_named(a, arg_key_item(k).0, arg_key_item(k).1)),
        (arg_step(o, a)->Ok_0).ty == o.ty,
        (arg_step(o, a)->Ok_0).name == o.name,
{
    lemma_arg_names();
    let goal = arg_set(arg_step(o, a)->Ok_0, k) == (arg_set(o, k) || item_named(a, arg_key_item(k).0, arg_key_item(k).1));
    match a {
        NestedMeta::Meta(Meta::Path(p)) => {
            assert(arg_step(o, a) == arg_path_step(o, p));
            assert(goal);
        },
        NestedMeta::Meta(Meta::List(l)) => {
            assert(arg_step(o, a) == arg_list_step(o, l));
            assert(goal);
        },
        NestedMeta::Meta(Meta::NameValue(nv)) => {
            assert(arg_step(o, a) == arg_name_value_step(o, nv));
            assert(goal);
        },
        NestedMeta::Lit(_) => {},
    }
}

/// The items from the `i`-th on, applied to `o`, set exactly the options
/// that `o` had and those that they name, and keep the type and the name.
proof fn lemma_arg_from_sets(o: ArgOptions, items: Seq<NestedMeta>, i: int, k: ArgKey)
    requires
        0 <= i <= items.len(),
        arg_from(o, items, i) is Ok,
    ensures
        arg_set(arg_from(o, items, i)->Ok_0, k) == (arg_set(o, k) || exists|j: int|
            i <= j < items.len() && #[trigger] item_named(items[j], arg_key_item(k).0, arg_key_item(k).1)),
        (arg_from(o, items, i)->Ok_0).ty == o.ty,
        (arg_from(o, items, i)->Ok_0).name == o.name,
    decreases items.len() - i,
{
    if i < items.len() {
        lemma_arg_step_sets(o, items[i], k);
        let o2 = arg_step(o, items[i])->Ok_0;
        lemma_arg_from_sets(o2, items, i + 1, k);
        if exists|j: int| i <= j < items.len() && #[trigger] item_named(items[j], arg_key_item(k).0, arg_key_item(k).1) {
            let j = choose|j: int| i <= j < items.len() && #[trigger] item_named(items[j], arg_key_item(k).0, arg_key_item(k).1);
            if j > i {
                assert(i + 1 <= j < items.len() && item_named(items[j], arg_key_item(k).0, arg_key_item(k).1));
            }
        }
    }
}

/// What the `arg` attribute accepts declares the parameter as it is: its
/// type is the parameter's, its pattern is an identifier and gives the
/// name, and each option is set exactly when the item that names it is
/// given: `help`, `short`, `long`, `rename` and `default` assigned a
/// string, `parse(..)`, and the words `stdin`, `count` and `multiple`. A
/// bare `#[arg]` sets none of them.
pub proof fn lemma_arg_options(attr: Attribute, arg: PatType, k: ArgKey)
    requires
        spec_arg_attr(attr, arg) is Ok,
    ensures
        (spec_arg_attr(attr, arg)->Ok_0).ty == arg.ty,
        arg.pat matches Pat::Ident(i) && (spec_arg_attr(attr, arg)->Ok_0).name == Some(i),
        arg_set(spec_arg_attr(attr, arg)->Ok_0, k) == given(arg_items(attr), arg_key_item(k).0, arg_key_item(k).1),
{
    let o0 = initial_arg(arg);
    match attr.meta {
        Ok(Meta::List(l)) => {
            lemma_arg_from_sets(o0, l.nested@, 0, k);
        },
        _ => {},
    }
}


/// The options `o` hold the value written in the item `a`, where `a` sets
/// an option: the string of `help`, `short`, `long`, `rename` or
/// `default`, the path in `parse(..)`; and for the words `stdin`, `count`
/// and `multiple`, a word of that name.
pub open spec fn arg_keeps_written(o: ArgOptions, a: NestedMeta) -> bool {
    match a {
        NestedMeta::Meta(Meta::Path(p)) => if p.spec_is_ident("stdin"@) {
            o.stdin matches Some(q) && q.spec_is_ident("stdin"@)
        } else if p.spec_is_ident("count"@) {
            o.count matches Some(q) && q.spec_is_ident("count"@)
        } else if p.spec_is_ident("multiple"@) {
            o.multiple matches Some(q) && q.spec_is_ident("multiple"@)
        } else {
            true
        },
        NestedMeta::Meta(Meta::NameValue(nv)) => if nv.path.spec_is_ident("help"@) {
            nv.lit matches Lit::Str(t) && o.help == Some(t)
        } else if nv.path.spec_is_ident("rename"@) {
            nv.lit matches Lit::Str(t) && o.rename == Some(t)
        } else if nv.path.spec_is_ident("short"@) {
            nv.lit matches Lit::Str(t) && o.short == Some(t)
        } else if nv.path.spec_is_ident("long"@) {
            nv.lit matches Lit::Str(t) && o.long == Some(t)
        } else if nv.path.spec_is_ident("default"@) {
            nv.lit matches Lit::Str(t) && o.default == Some(t)
        } else {
            true
        },
        NestedMeta::Meta(Meta::List(l)) => if l.path.spec_is_ident("parse"@) {
            l.nested@.len() == 1 && (l.nested@[0] matches NestedMeta::Meta(Meta::Path(pi)) && o.parse == Some(pi))
        } else {
            true
        },
        NestedMeta::Lit(_) => true,
    }
}

/// An accepted item writes its value into the option it sets, and leaves
/// the others as they were; a string or a parser is written only where
/// none was.
proof fn lemma_arg_step_values(o: ArgOptions, b: NestedMeta)
    requires
        arg_step(o, b) is Ok,
    ensures
        ({
            let o2 = arg_step(o, b)->Ok_0;
            &&& arg_keeps_written(o2, b)
            &&& o2.help == o.help || (o.help is None && item_named(b, ItemForm::Assign, "help"@))
            &&& o2.rename == o.rename || (o.rename is None && item_named(b, ItemForm::Assign, "rename"@))
            &&& o2.short == o.short || (o.short is None && item_named(b, ItemForm::Assign, "short"@))
            &&& o2.long == o.long || (o.long is None && item_named(b, ItemForm::Assign, "long"@))
            &&& o2.default == o.default || (o.default is None && item_named(b, ItemForm::Assign, "default"@))
            &&& o2.parse == o.parse || (o.parse is None && item_named(b, ItemForm::Call, "parse"@))
            &&& o2.stdin == o.stdin || item_named(b, ItemForm::Word, "stdin"@)
            &&& o2.count == o.count || item_named(b, ItemForm::Word, "count"@)
            &&& o2.multiple == o.multiple || item_named(b, ItemForm::Word, "multiple"@)
        }),
{
    lemma_arg_names();
    match b {
        NestedMeta::Meta(Meta::Path(p)) => {
            assert(arg_step(o, b) == arg_path_step(o, p));
        },
        NestedMeta::Meta(Meta::List(l)) => {
            assert(arg_step(o, b) == arg_list_step(o, l));
        },
        NestedMeta::Meta(Meta::NameValue(nv)) => {
            assert(arg_step(o, b) == arg_name_value_step(o, nv));
        },
        NestedMeta::Lit(_) => {},
    }
}

/// Applied from the `m`-th item on, the items keep the value written in
/// the `i`-th one: once it is written, where `i` comes before `m`, or when
/// it is reached.
proof fn lemma_arg_from_keeps(o: ArgOptions, items: Seq<NestedMeta>, m: int, i: int)
    requires
        0 <= m <= items.len(),
        0 <= i < items.len(),
        arg_from(o, items, m) is Ok,
        i < m ==> arg_keeps_written(o, items[i]),
    ensures
        arg_keeps_written(arg_from(o, items, m)->Ok_0, items[i]),
    decreases items.len() - m,
{
    if m < items.len() {
        lemma_arg_names();
        lemma_arg_step_values(o, items[m]);
        lemma_arg_from_keeps(arg_step(o, items[m])->Ok_0, items, m + 1, i);
    }
}

/// Each option that an item of an accepted `arg` attribute sets holds the
/// value written in that item: `help`, `short`, `long`, `rename` and
/// `default` hold the strings given, `parse(..)` its path, and `stdin`,
/// `count` and `multiple` the word itself.
pub proof fn lemma_arg_values(attr: Attribute, arg: PatType, i: int)
    requires
        spec_arg_attr(attr, arg) is Ok,
        0 <= i < arg_items(attr).len(),
    ensures
        arg_keeps_written(spec_arg_attr(attr, arg)->Ok_0, arg_items(attr)[i]),
{
    match attr.meta {
        Ok(Meta::List(l)) => {
            lemma_arg_from_keeps(initial_arg(arg), l.nested@, 0, i);
        },
        _ => {},
    }
}

/// The option `k` takes a value that may be given once only: all but the
/// words `stdin`, `count` and `multiple`.
pub open spec fn single_valued(k: ArgKey) -> bool {
    !(k is Stdin || k is Count || k is Multiple)
}

/// An item that names an option of a single value already set is refused.
proof fn lemma_arg_step_refuses_set(o: ArgOptions, b: NestedMeta, k: ArgKey)
    requires
        single_valued(k),
        arg_set(o, k),
        item_named(b, arg_key_item(k).0, arg_key_item(k).1),
    ensures
        arg_step(o, b) is Err,
{
    lemma_arg_names();
    match b {
        NestedMeta::Meta(Meta::Path(p)) => {
            assert(arg_step(o, b) == arg_path_step(o, p));
        },
        NestedMeta::Meta(Meta::List(l)) => {
            assert(arg_step(o, b) == arg_list_step(o, l));
        },
        NestedMeta::Meta(Meta::NameValue(nv)) => {
            assert(arg_step(o, b) == arg_name_value_step(o, nv));
        },
        NestedMeta::Lit(_) => {},
    }
}

/// From the `m`-th item on, two items that name one option of a single
/// value are refused; so is one, where `o` has the option set already.
proof fn lemma_arg_from_twice(o: ArgOptions, items: Seq<NestedMeta>, m: int, k: ArgKey, i: int, j: int)
    requires
        single_valued(k),
        0 <= m <= j < items.len(),
        i < j,
        m <= i || arg_set(o, k),
        0 <= i ==> item_named(items[i], arg_key_item(k).0, arg_key_item(k).1),
        item_named(items[j], arg_key_item(k).0, arg_key_item(k).1),
    ensures
        arg_from(o, items, m) is Err,
    decreases items.len() - m,
{
    if m == j {
        lemma_arg_step_refuses_set(o, items[m], k);
    } else if arg_step(o, items[m]) is Ok {
        lemma_arg_step_sets(o, items[m], k);
        lemma_arg_from_twice(arg_step(o, items[m])->Ok_0, items, m + 1, k, i, j);
    }
}

/// An option of the `arg` attribute that takes a value is refused when it
/// is given twice: `help`, `short`, `long`, `rename`, `default` and
/// `parse(..)` never override their first value.
pub proof fn lemma_arg_repeated(attr: Attribute, arg: PatType, k: ArgKey, i: int, j: int)
    requires
        single_valued(k),
        0 <= i < j < arg_items(attr).len(),
        item_named(arg_items(attr)[i], arg_key_item(k).0, arg_key_item(k).1),
        item_named(arg_items(attr)[j], arg_key_item(k).0, arg_key_item(k).1),
    ensures
        spec_arg_attr(attr, arg) is Err,
{
    match attr.meta {
        Ok(Meta::List(l)) => {
            lemma_arg_from_twice(initial_arg(arg), l.nested@, 0, k, i, j);
        },
        _ => {},
    }
}

} // verus!
