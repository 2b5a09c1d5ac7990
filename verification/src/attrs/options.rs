use vstd::prelude::*;

use super::syntax::{Ident, Lit, LitStr, Path, Type};

verus! {

/// Where a command runs.
pub enum ExecutionContext {
    Standard,
    CliOnly(Path),
    RpcOnly(Path),
    Local(Path),
    CustomCli { custom: Path, cli: Path, is_async: bool },
}

/// The options of a command.
pub struct LeafOptions {
    pub blocking: Option<Path>,
    pub is_async: bool,
    pub about: Option<LitStr>,
    pub rename: Option<LitStr>,
    pub exec_ctx: ExecutionContext,
    pub display: Option<Path>,
    pub aliases: Vec<LitStr>,
    pub metadata: Vec<(Ident, Lit)>,
}

/// The implementation of a command with subcommands, run when no
/// subcommand is given.
pub struct SelfImplInfo {
    pub path: Path,
    pub is_async: bool,
    pub blocking: bool,
}

/// The options of a command with subcommands.
pub struct ParentOptions {
    pub common: LeafOptions,
    pub subcommands: Vec<Path>,
    pub self_impl: Option<SelfImplInfo>,
}

/// The options of a command, with subcommands or without.
pub enum Options {
    Leaf(LeafOptions),
    Parent(ParentOptions),
}

/// The options of a command-line argument.
pub struct ArgOptions {
    pub ty: Type,
    pub optional: bool,
    pub check_is_present: bool,
    pub help: Option<LitStr>,
    pub name: Option<Ident>,
    pub rename: Option<LitStr>,
    pub short: Option<LitStr>,
    pub long: Option<LitStr>,
    pub parse: Option<Path>,
    pub default: Option<LitStr>,
    pub count: Option<Path>,
    pub multiple: Option<Path>,
    pub stdin: Option<Path>,
}

/// What a parameter of a command stands for (`Unmarked`: nothing yet).
pub enum ParamType {
    Unmarked,
    Arg(ArgOptions),
    Context(Type),
    ParentData(Type),
    Request,
    Response,
}

/// [`LeafOptions`] with its lists as sequences.
pub struct LeafOptionsV {
    pub blocking: Option<Path>,
    pub is_async: bool,
    pub about: Option<LitStr>,
    pub rename: Option<LitStr>,
    pub exec_ctx: ExecutionContext,
    pub display: Option<Path>,
    pub aliases: Seq<LitStr>,
    pub metadata: Seq<(Ident, Lit)>,
}

/// [`ParentOptions`] with its lists as sequences.
pub struct ParentOptionsV {
    pub common: LeafOptionsV,
    pub subcommands: Seq<Path>,
    pub self_impl: Option<SelfImplInfo>,
}

/// [`Options`] with its lists as sequences.
pub enum OptionsV {
    Leaf(LeafOptionsV),
    Parent(ParentOptionsV),
}

impl View for LeafOptions {
    type V = LeafOptionsV;

    open spec fn view(&self) -> LeafOptionsV {
        LeafOptionsV {
            blocking: self.blocking,
            is_async: self.is_async,
            about: self.about,
            rename: self.rename,
            exec_ctx: self.exec_ctx,
            display: self.display,
            aliases: self.aliases@,
            metadata: self.metadata@,
        }
    }
}

impl View for ParentOptions {
    type V = ParentOptionsV;

    open spec fn view(&self) -> ParentOptionsV {
        ParentOptionsV { common: self.common@, subcommands: self.subcommands@, self_impl: self.self_impl }
    }
}

impl View for Options {
    type V = OptionsV;

    open spec fn view(&self) -> OptionsV {
        match self {
            Options::Leaf(l) => OptionsV::Leaf(l@),
            Options::Parent(p) => OptionsV::Parent(p@),
        }
    }
}

/// The options a command starts with.
pub open spec fn default_leaf() -> LeafOptionsV {
    LeafOptionsV {
        blocking: None,
        is_async: false,
        about: None,
        rename: None,
        exec_ctx: ExecutionContext::Standard,
        display: None,
        aliases: Seq::empty(),
        metadata: Seq::empty(),
    }
}

impl LeafOptions {
    pub fn new() -> (r: Self)
        ensures
            r@ == default_leaf(),
    {
        LeafOptions {
            blocking: None,
            is_async: false,
            about: None,
            rename: None,
            exec_ctx: ExecutionContext::Standard,
            display: None,
            aliases: Vec::new(),
            metadata: Vec::new(),
        }
    }
}

/// The options common to both kinds of command.
pub open spec fn common(o: OptionsV) -> LeafOptionsV {
    match o {
        OptionsV::Leaf(l) => l,
        OptionsV::Parent(p) => p.common,
    }
}

/// `o` with its common options replaced.
pub open spec fn with_common(o: OptionsV, c: LeafOptionsV) -> OptionsV {
    match o {
        OptionsV::Leaf(_) => OptionsV::Leaf(c),
        OptionsV::Parent(p) => OptionsV::Parent(ParentOptionsV { common: c, ..p }),
    }
}

/// `o` as the options of a command with subcommands: a command without
/// them becomes one with none yet.
pub open spec fn to_parent(o: OptionsV) -> ParentOptionsV {
    match o {
        OptionsV::Leaf(l) => ParentOptionsV { common: l, subcommands: Seq::empty(), self_impl: None },
        OptionsV::Parent(p) => p,
    }
}

impl Options {
    /// Takes out the common options.
    pub fn into_common(self) -> (r: (LeafOptions, Option<(Vec<Path>, Option<SelfImplInfo>)>))
        ensures
            r.0@ == common(self@),
            match self@ {
                OptionsV::Leaf(_) => r.1 is None,
                OptionsV::Parent(p) => r.1 matches Some((s, i)) && s@ == p.subcommands && i == p.self_impl,
            },
    {
        match self {
            Options::Leaf(l) => (l, None),
            Options::Parent(p) => (p.common, Some((p.subcommands, p.self_impl))),
        }
    }

    /// Puts back common options taken out with [`Options::into_common`].
    pub fn from_common(c: LeafOptions, rest: Option<(Vec<Path>, Option<SelfImplInfo>)>) -> (r: Self)
        ensures
            match rest {
                None => r@ == OptionsV::Leaf(c@),
                Some((s, i)) => r@ == OptionsV::Parent(ParentOptionsV { common: c@, subcommands: s@, self_impl: i }),
            },
    {
        match rest {
            None => Options::Leaf(c),
            Some((subcommands, self_impl)) => Options::Parent(ParentOptions { common: c, subcommands, self_impl }),
        }
    }

    /// The options as those of a command with subcommands.
    pub fn into_parent(self) -> (r: ParentOptions)
        ensures
            r@ == to_parent(self@),
    {
        match self {
            Options::Leaf(l) => ParentOptions { common: l, subcommands: Vec::new(), self_impl: None },
            Options::Parent(p) => p,
        }
    }
}

} // verus!
