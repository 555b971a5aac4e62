//! WASI modules run inside the plugin sandbox by the host.
use vstd::prelude::*;

use crate::host::{host_reply, reply_of, text_result};
use crate::json::{distinct_pair_keys, json_quote, pairs_view, quote, strings_view};
use crate::writer::{
    has_member, lemma_object_prefix_push, lemma_object_text_member, lemma_object_text_prefix,
    object_prefix, object_text,
    member_text, opt_member_text, pairs_object, pairs_text, push_member, strings_array, strings_text,
};
use crate::text::{owned, push_str};

verus! {

/// A request to run a WASI module stored in plugin storage.
#[derive(Debug)]
pub struct WasiRunRequest {
    /// Storage key where the `.wasm` binary is stored.
    pub module_key: String,
    /// Command-line arguments to pass to the module.
    pub args: Vec<String>,
    /// Base64-encoded stdin data.
    pub stdin: Option<String>,
    /// Virtual filesystem: path to Base64-encoded content.
    pub files: Option<Vec<(String, String)>>,
    /// Paths to capture after execution.
    pub output_files: Option<Vec<String>>,
}

/// What running a WASI module gave.
#[derive(Debug)]
pub struct WasiRunResult {
    /// Process exit code.
    pub exit_code: i32,
    /// Captured stdout.
    pub stdout: String,
    /// Captured stderr.
    pub stderr: String,
    /// Captured output files: path to Base64-encoded content.
    pub files: Option<Vec<(String, String)>>,
}

/// The JSON text of a run request: `module_key` and `args`, then `stdin`,
/// `files` and `output_files` where present, in that order.
pub open spec fn run_request_text(
    module_key: Seq<char>,
    args: Seq<Seq<char>>,
    stdin: Option<Seq<char>>,
    files: Option<Seq<(Seq<char>, Seq<char>)>>,
    output_files: Option<Seq<Seq<char>>>,
) -> Seq<char> {
    "{"@ + json_quote("module_key"@) + ":"@ + json_quote(module_key) + member_text(
        "args"@,
        strings_text(args),
    ) + opt_member_text(
        "stdin"@,
        match stdin {
            Some(s) => Some(json_quote(s)),
            None => None,
        },
    ) + opt_member_text(
        "files"@,
        match files {
            Some(f) => Some(pairs_text(f)),
            None => None,
        },
    ) + opt_member_text(
        "output_files"@,
        match output_files {
            Some(o) => Some(strings_text(o)),
            None => None,
        },
    ) + "}"@
}

/// The request for `run`: the run request as JSON text.
pub fn run_input(request: &WasiRunRequest) -> (input: String)
    requires
        request.files matches Some(f) ==> distinct_pair_keys(pairs_view(f@)),
    ensures
        input@ == run_request_text(
            request.module_key@,
            strings_view(request.args@),
            match request.stdin {
                Some(s) => Some(s@),
                None => None,
            },
            match request.files {
                Some(f) => Some(pairs_view(f@)),
                None => None,
            },
            match request.output_files {
                Some(o) => Some(strings_view(o@)),
                None => None,
            },
        ),
{
    let mut out = owned("{");
    let k = quote("module_key");
    push_str(&mut out, k.as_str());
    push_str(&mut out, ":");
    let mk = quote(request.module_key.as_str());
    push_str(&mut out, mk.as_str());
    let args = strings_array(&request.args);
    push_member(&mut out, "args", args.as_str());
    match &request.stdin {
        Some(s) => {
            let q = quote(s.as_str());
            push_member(&mut out, "stdin", q.as_str());
        },
        None => {},
    }
    match &request.files {
        Some(f) => {
            let t = pairs_object(f);
            push_member(&mut out, "files", t.as_str());
        },
        None => {},
    }
    match &request.output_files {
        Some(o) => {
            let t = strings_array(o);
            push_member(&mut out, "output_files", t.as_str());
        },
        None => {},
    }
    push_str(&mut out, "}");
    assert(out@ =~= run_request_text(
        request.module_key@,
        strings_view(request.args@),
        match request.stdin {
            Some(s) => Some(s@),
            None => None,
        },
        match request.files {
            Some(f) => Some(pairs_view(f@)),
            None => None,
        },
        match request.output_files {
            Some(o) => Some(strings_view(o@)),
            None => None,
        },
    ));
    out
}

/// The reply of `host_run_wasi_module`, before it is read as a result.
pub fn run_reply(raw: Result<String, String>) -> (r: Result<String, String>)
    ensures
        text_result(r) == reply_of("host_run_wasi_module"@, text_result(raw)),
{
    host_reply("host_run_wasi_module", raw)
}

/// A run request's text holds the module key and the arguments, and the
/// stdin, the files (as an object of strings) and the output paths when
/// they are given.
#[verifier::spinoff_prover]
pub proof fn lemma_run_request_members(
    module_key: Seq<char>,
    args: Seq<Seq<char>>,
    stdin: Option<Seq<char>>,
    files: Option<Seq<(Seq<char>, Seq<char>)>>,
    output_files: Option<Seq<Seq<char>>>,
)
    ensures
        has_member(
            run_request_text(module_key, args, stdin, files, output_files),
            "module_key"@,
            json_quote(module_key),
        ),
        has_member(
            run_request_text(module_key, args, stdin, files, output_files),
            "args"@,
            strings_text(args),
        ),
        stdin matches Some(t) ==> has_member(
            run_request_text(module_key, args, stdin, files, output_files),
            "stdin"@,
            json_quote(t),
        ),
        files matches Some(f) ==> has_member(
            run_request_text(module_key, args, stdin, files, output_files),
            "files"@,
            pairs_text(f),
        ),
        output_files matches Some(o) ==> has_member(
            run_request_text(module_key, args, stdin, files, output_files),
            "output_files"@,
            strings_text(o),
        ),
{
    reveal_strlit("{");
    reveal_strlit("}");
    let text = run_request_text(module_key, args, stdin, files, output_files);
    let m0 = seq![("module_key"@, json_quote(module_key))];
    assert(object_prefix(m0) =~= "{"@ + json_quote("module_key"@) + ":"@ + json_quote(module_key));
    let m1 = m0.push(("args"@, strings_text(args)));
    lemma_object_prefix_push(m0, ("args"@, strings_text(args)));
    let a = object_prefix(m1);
    let m2 = match stdin {
        Some(t) => {
            lemma_object_prefix_push(m1, ("stdin"@, json_quote(t)));
            m1.push(("stdin"@, json_quote(t)))
        },
        None => m1,
    };
    let q = match stdin {
        Some(t) => Some(json_quote(t)),
        None => None,
    };
    assert(object_prefix(m2) =~= a + opt_member_text("stdin"@, q));
    let b = object_prefix(m2);
    let m3 = match files {
        Some(f) => {
            lemma_object_prefix_push(m2, ("files"@, pairs_text(f)));
            m2.push(("files"@, pairs_text(f)))
        },
        None => m2,
    };
    let ft = match files {
        Some(f) => Some(pairs_text(f)),
        None => None,
    };
    assert(object_prefix(m3) =~= b + opt_member_text("files"@, ft));
    let c = object_prefix(m3);
    let ms = match output_files {
        Some(o) => {
            lemma_object_prefix_push(m3, ("output_files"@, strings_text(o)));
            m3.push(("output_files"@, strings_text(o)))
        },
        None => m3,
    };
    let ot = match output_files {
        Some(o) => Some(strings_text(o)),
        None => None,
    };
    assert(object_prefix(ms) =~= c + opt_member_text("output_files"@, ot));
    lemma_object_text_prefix(ms);
    assert(text =~= object_text(ms));
    lemma_object_text_member(ms, 0);
    lemma_object_text_member(ms, 1);
    if stdin is Some {
        lemma_object_text_member(ms, 2);
    }
    if files is Some {
        lemma_object_text_member(ms, m2.len() as int);
        assert(ms[m2.len() as int] == m3[m2.len() as int]);
    }
    if output_files is Some {
        lemma_object_text_member(ms, m3.len() as int);
    }
}

} // verus!

