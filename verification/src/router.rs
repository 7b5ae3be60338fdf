use vstd::prelude::*;

use crate::text::{
    is_prefix, is_ws_char, lemma_split_ws_from_len, split_ws, split_ws_spec, str_eq,
    str_starts_with, str_trim, string_push, trim_spec,
};

verus! {

/// A resolved command: the program to spawn, its arguments, and, for the
/// document command, the text to write to the fixed document path first.
pub struct Invocation {
    pub program: String,
    pub args: Vec<String>,
    pub prd_write: Option<String>,
}

/// The mathematical value of an `Invocation`.
pub struct InvocationModel {
    pub program: Seq<char>,
    pub args: Seq<Seq<char>>,
    pub prd_write: Option<Seq<char>>,
}

impl View for Invocation {
    type V = InvocationModel;

    open spec fn view(&self) -> InvocationModel {
        InvocationModel {
            program: self.program@,
            args: self.args.deep_view(),
            prd_write: match self.prd_write {
                Some(ref w) => Some(w@),
                None => None,
            },
        }
    }
}

/// The routing rules, in order, first match winning:
/// a `prd:` prefix resolves to the chat-stage invocation and asks for the
/// trimmed remainder (the text after the first colon) plus a newline to be
/// written to the document path; `plan` resolves to clarify; `build` to the
/// chat-stage invocation; `stage` and `deploy` to deploy without dry run;
/// a `release` prefix passes the remaining whitespace-separated tokens on;
/// anything else runs verbatim through a shell.
pub open spec fn route_model(cmd: Seq<char>) -> InvocationModel {
    if is_prefix("prd:"@, cmd) {
        InvocationModel {
            program: "ocean"@,
            args: seq!["chat"@, "--stage=false"@],
            prd_write: Some(trim_spec(cmd.subrange(4, cmd.len() as int)).push('\n')),
        }
    } else if cmd == "plan"@ {
        InvocationModel { program: "ocean"@, args: seq!["clarify"@], prd_write: None }
    } else if cmd == "build"@ {
        InvocationModel { program: "ocean"@, args: seq!["chat"@, "--stage=false"@], prd_write: None }
    } else if cmd == "stage"@ || cmd == "deploy"@ {
        InvocationModel {
            program: "ocean"@,
            args: seq!["deploy"@, "--no-dry-run"@],
            prd_write: None,
        }
    } else if is_prefix("release"@, cmd) {
        InvocationModel {
            program: "ocean"@,
            args: seq!["release"@] + split_ws_spec(cmd).skip(1),
            prd_write: None,
        }
    } else {
        InvocationModel { program: "sh"@, args: seq!["-lc"@, cmd], prd_write: None }
    }
}

/// Map a raw command line to the invocation the routing rules resolve it to.
/// Identical input text always yields the identical invocation.
pub fn route(cmd: &str) -> (r: Invocation)
    ensures
        r@ == route_model(cmd@),
{
    if str_starts_with(cmd, "prd:") {
        proof {
            reveal_strlit("prd:");
        }
        let rest = cmd.substring_char(4, cmd.unicode_len());
        let mut text = str_trim(rest);
        string_push(&mut text, '\n');
        let mut args: Vec<String> = Vec::new();
        args.push("chat".to_owned());
        args.push("--stage=false".to_owned());
        proof {
            assert(args.deep_view() =~= seq!["chat"@, "--stage=false"@]);
        }
        Invocation { program: "ocean".to_owned(), args, prd_write: Some(text) }
    } else if str_eq(cmd, "plan") {
        let mut args: Vec<String> = Vec::new();
        args.push("clarify".to_owned());
        proof {
            assert(args.deep_view() =~= seq!["clarify"@]);
        }
        Invocation { program: "ocean".to_owned(), args, prd_write: None }
    } else if str_eq(cmd, "build") {
        let mut args: Vec<String> = Vec::new();
        args.push("chat".to_owned());
        args.push("--stage=false".to_owned());
        proof {
            assert(args.deep_view() =~= seq!["chat"@, "--stage=false"@]);
        }
        Invocation { program: "ocean".to_owned(), args, prd_write: None }
    } else if str_eq(cmd, "stage") || str_eq(cmd, "deploy") {
        let mut args: Vec<String> = Vec::new();
        args.push("deploy".to_owned());
        args.push("--no-dry-run".to_owned());
        proof {
            assert(args.deep_view() =~= seq!["deploy"@, "--no-dry-run"@]);
        }
        Invocation { program: "ocean".to_owned(), args, prd_write: None }
    } else if str_starts_with(cmd, "release") {
        let toks = split_ws(cmd);
        proof {
            reveal_strlit("release");
            assert(cmd@.subrange(0, 7)[0] == cmd@[0]);
            assert(!is_ws_char(cmd@[0]));
            lemma_split_ws_from_len(cmd@, 0, Seq::empty(), Seq::empty());
            assert(toks.deep_view().len() >= 1);
        }
        let mut args: Vec<String> = Vec::new();
        args.push("release".to_owned());
        let mut i: usize = 1;
        proof {
            assert(args.deep_view() =~= seq!["release"@] + split_ws_spec(cmd@).subrange(1, 1));
        }
        while i < toks.len()
            invariant
                toks.deep_view() == split_ws_spec(cmd@),
                toks.deep_view().len() >= 1,
                1 <= i <= toks.len(),
                args.deep_view() == seq!["release"@] + toks.deep_view().subrange(1, i as int),
            decreases toks.len() - i,
        {
            let ghost old_args = args.deep_view();
            let t = toks[i].clone();
            args.push(t);
            proof {
                assert(args.deep_view() =~= old_args.push(toks.deep_view()[i as int]));
                assert(args.deep_view() =~= seq!["release"@] + toks.deep_view().subrange(
                    1,
                    i + 1,
                ));
            }
            i += 1;
        }
        proof {
            if toks.deep_view().len() >= 1 {
                assert(toks.deep_view().subrange(1, toks.deep_view().len() as int)
                    =~= toks.deep_view().skip(1));
            }
        }
        Invocation { program: "ocean".to_owned(), args, prd_write: None }
    } else {
        let mut args: Vec<String> = Vec::new();
        args.push("-lc".to_owned());
        args.push(cmd.to_owned());
        proof {
            assert(args.deep_view() =~= seq!["-lc"@, cmd@]);
        }
        Invocation { program: "sh".to_owned(), args, prd_write: None }
    }
}

} // verus!
