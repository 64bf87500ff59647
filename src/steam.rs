use crate::text::{contains_text, occurs_in, same_text, texts};
use vstd::prelude::*;

verus! {

/// The separator that ends a launcher's own options.
pub open spec fn separator() -> Seq<char> {
    "--"@
}

/// Marks a path inside the Steam client's own installation.
pub open spec fn client_marker() -> Seq<char> {
    "Steam/ubuntu12_32"@
}

/// Marks a path inside a Steam Linux Runtime container.
pub open spec fn container_marker() -> Seq<char> {
    "common/SteamLinuxRuntime"@
}

/// Marks a path inside a Proton compatibility tool.
pub open spec fn compat_tool_marker() -> Seq<char> {
    "common/Proton"@
}

/// The verb that asks the chain to wait for exit and run.
pub open spec fn wait_marker() -> Seq<char> {
    "waitforexitandrun"@
}

/// The position (from 0) of the token before which a separator is put back.
pub const RESTORED_SEPARATOR_AT: usize = 3;

/// What a token of the launch chain is, once a separator has been seen.
#[derive(Debug, Clone, Copy, PartialEq, Eq)]
pub enum TokenKind {
    /// A path into the Steam client: the command that follows is nested.
    RealTargetPath,
    /// A path into a runtime container.
    ContainerMarker,
    /// A path into a compatibility tool.
    CompatToolMarker,
    /// The wait-for-exit-and-run verb.
    WaitMarker,
    /// Anything else.
    Plain,
}

/// The kind of a token, the markers tried in this order.
pub open spec fn token_kind(tok: Seq<char>) -> TokenKind {
    if occurs_in(client_marker(), tok) {
        TokenKind::RealTargetPath
    } else if occurs_in(container_marker(), tok) {
        TokenKind::ContainerMarker
    } else if occurs_in(compat_tool_marker(), tok) {
        TokenKind::CompatToolMarker
    } else if tok == wait_marker() {
        TokenKind::WaitMarker
    } else {
        TokenKind::Plain
    }
}

/// The state of the translator between two tokens.
pub struct ChainState {
    /// A separator has been seen and no nested command has begun since.
    pub program: bool,
    /// Tokens before the next separator are kept.
    pub wanted: bool,
}

/// One token: the next state and what is kept of it.
pub open spec fn token_step(st: ChainState, tok: Seq<char>) -> (ChainState, Seq<Seq<char>>) {
    let kept = if st.wanted {
        seq![tok]
    } else {
        Seq::<Seq<char>>::empty()
    };
    if tok != separator() && !st.program {
        (st, kept)
    } else if tok == separator() {
        (ChainState { program: true, wanted: true }, kept)
    } else {
        match token_kind(tok) {
            TokenKind::RealTargetPath => (ChainState { program: false, ..st }, seq![tok]),
            TokenKind::ContainerMarker => (
                ChainState { program: false, wanted: false },
                Seq::<Seq<char>>::empty(),
            ),
            TokenKind::CompatToolMarker => (
                ChainState { wanted: false, ..st },
                Seq::<Seq<char>>::empty(),
            ),
            TokenKind::WaitMarker => (
                ChainState { program: false, wanted: true },
                Seq::<Seq<char>>::empty(),
            ),
            TokenKind::Plain => (st, seq![tok]),
        }
    }
}

/// The translator run over `args`: its final state and the tokens kept,
/// with the separator put back before the token at `RESTORED_SEPARATOR_AT`.
pub open spec fn chain_run(args: Seq<Seq<char>>) -> (ChainState, Seq<Seq<char>>)
    decreases args.len(),
{
    if args.len() == 0 {
        (ChainState { program: false, wanted: true }, Seq::<Seq<char>>::empty())
    } else {
        let (st, out) = chain_run(args.drop_last());
        let out = if args.len() - 1 == RESTORED_SEPARATOR_AT {
            out.push(separator())
        } else {
            out
        };
        let (st2, kept) = token_step(st, args.last());
        (st2, out + kept)
    }
}

/// The tokens that the translator keeps of `args`.
pub open spec fn kept_tokens(args: Seq<Seq<char>>) -> Seq<Seq<char>> {
    chain_run(args).1
}

/// A path without its last `/` and what follows it; empty where it has no `/`.
pub open spec fn strip_last_component(s: Seq<char>) -> Seq<char>
    decreases s.len(),
{
    if s.len() == 0 {
        s
    } else if s.last() == '/' {
        s.drop_last()
    } else {
        strip_last_component(s.drop_last())
    }
}

/// The argument vector for the target: the kept tokens, the last one with its
/// final path component taken off.
pub open spec fn steam_arguments(args: Seq<Seq<char>>) -> Seq<Seq<char>> {
    let kept = kept_tokens(args);
    kept.drop_last().push(strip_last_component(kept.last()))
}

/// Classifies a token as `token_kind` does.
pub fn classify_token(tok: &str) -> (r: TokenKind)
    ensures
        r == token_kind(tok@),
{
    if contains_text(tok, "Steam/ubuntu12_32") {
        TokenKind::RealTargetPath
    } else if contains_text(tok, "common/SteamLinuxRuntime") {
        TokenKind::ContainerMarker
    } else if contains_text(tok, "common/Proton") {
        TokenKind::CompatToolMarker
    } else if same_text(tok, "waitforexitandrun") {
        TokenKind::WaitMarker
    } else {
        TokenKind::Plain
    }
}

/// The tokens of a launch chain's command line that the translator keeps.
pub fn filter_steam_args(args: &Vec<String>) -> (r: Vec<String>)
    ensures
        texts(r@) == kept_tokens(texts(args@)),
{
    let mut out: Vec<String> = Vec::new();
    let mut program = false;
    let mut wanted = true;
    let mut i: usize = 0;
    while i < args.len()
        invariant
            i <= args@.len(),
            chain_run(texts(args@.subrange(0, i as int))) == (
            ChainState { program, wanted },
            texts(out@),
            ),
        decreases args@.len() - i,
    {
        proof {
            let pre = texts(args@.subrange(0, i + 1));
            assert(pre.drop_last() =~= texts(args@.subrange(0, i as int)));
            assert(pre.last() == args@[i as int]@);
        }
        let ghost out0 = texts(out@);
        if i == RESTORED_SEPARATOR_AT {
            out.push(String::from_str("--"));
            proof {
                assert(texts(out@) =~= out0.push(separator()));
            }
        }
        let ghost out1 = texts(out@);
        let arg = &args[i];
        let is_sep = same_text(arg.as_str(), "--");
        if !is_sep && !program {
            if wanted {
                out.push(arg.clone());
            }
        } else if is_sep {
            program = true;
            if wanted {
                out.push(arg.clone());
            }
            wanted = true;
        } else {
            match classify_token(arg.as_str()) {
                TokenKind::RealTargetPath => {
                    out.push(arg.clone());
                    program = false;
                },
                TokenKind::ContainerMarker => {
                    program = false;
                    wanted = false;
                },
                TokenKind::CompatToolMarker => {
                    wanted = false;
                },
                TokenKind::WaitMarker => {
                    program = false;
                    wanted = true;
                },
                TokenKind::Plain => {
                    out.push(arg.clone());
                },
            }
        }
        proof {
            assert(texts(out@) =~= out1 + token_step(
                chain_run(texts(args@.subrange(0, i as int))).0,
                arg@,
            ).1);
        }
        i = i + 1;
    }
    proof {
        assert(args@.subrange(0, args@.len() as int) =~= args@);
    }
    out
}

/// `s` with its last `/` and all after it taken off; empty where it has no `/`.
pub fn strip_program_name(s: &str) -> (r: String)
    ensures
        r@ == strip_last_component(s@),
{
    let mut i: usize = s.unicode_len();
    proof {
        assert(s@.subrange(0, i as int) =~= s@);
    }
    while i > 0
        invariant
            i <= s@.len(),
            strip_last_component(s@) == strip_last_component(s@.subrange(0, i as int)),
        decreases i,
    {
        proof {
            assert(s@.subrange(0, i as int).drop_last() =~= s@.subrange(0, i - 1));
        }
        if s.get_char(i - 1) == '/' {
            return String::from_str(s.substring_char(0, i - 1));
        }
        i = i - 1;
    }
    proof {
        assert(s@.subrange(0, 0) =~= Seq::<char>::empty());
    }
    String::new()
}

/// Reduces the command line of a Steam launch chain to the arguments that the
/// target receives: the tokens that the translator keeps, the last of them (the
/// path of the target's executable) replaced by its directory.
pub fn parse_steam_args(args: Vec<String>) -> (r: Vec<String>)
    requires
        kept_tokens(texts(args@)).len() > 0,
    ensures
        texts(r@) == steam_arguments(texts(args@)),
{
    let mut new_args = filter_steam_args(&args);
    let ghost kept = texts(new_args@);
    let last = new_args.pop().unwrap();
    let dir = strip_program_name(last.as_str());
    new_args.push(dir);
    proof {
        assert(texts(new_args@) =~= kept.drop_last().push(strip_last_component(kept.last())));
    }
    new_args
}

} // verus!
