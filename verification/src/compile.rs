//! Compiling plugins: the requests that the compiler gets, and what its replies mean.
use vstd::prelude::*;
use vstd::utf8::*;

use crate::bytes::{c_string, c_string_of, decode, is_c_string, utf8_error_text};
use crate::json::{
    json_list, json_member, json_object, json_string, list_to_json, parsed, printable, says,
    string_to_json, Json,
};
use crate::path::{has_name, is_named, name_bytes, DataPath, FilePath};
use crate::plugin::Plugin;
use crate::text::{join, join_with, texts};

verus! {

// ---------------------------------------------------------------------------
// Requests and results

/// What the compiler is asked: to compile `plugin` against `references`, with the symbols
/// `preprocessor` defined.
#[derive(Debug)]
pub struct CompileRequest<'a> {
    pub plugin: String,
    pub references: &'a [String],
    pub preprocessor: &'a [String],
}

/// What the compiler answers.
#[derive(Debug)]
pub struct CompileResponse {
    pub success: bool,
    pub errored: bool,
    pub errors: Vec<String>,
}

/// What became of a plugin: it compiled, it has compile errors, or it could not be tried.
#[derive(Debug)]
pub enum CompileResult {
    Success,
    Failure(Vec<String>),
    Errored(String),
}

/// A `CompileResult` by the texts that it holds.
pub enum Outcome {
    Success,
    Failure(Seq<Seq<char>>),
    Errored(Seq<char>),
}

impl View for CompileResult {
    type V = Outcome;

    open spec fn view(&self) -> Outcome {
        match *self {
            CompileResult::Success => Outcome::Success,
            CompileResult::Failure(errors) => Outcome::Failure(texts(errors@)),
            CompileResult::Errored(message) => Outcome::Errored(message@),
        }
    }
}

/// The JSON object that stands for a request.
pub open spec fn request_json(
    plugin: Seq<char>,
    references: Seq<Seq<char>>,
    preprocessor: Seq<Seq<char>>,
) -> Seq<char> {
    "{\"plugin\":"@ + json_string(plugin) + ",\"references\":"@ + json_list(references)
        + ",\"preprocessor\":"@ + json_list(preprocessor) + "}"@
}

impl<'a> CompileRequest<'a> {
    /// The JSON object that stands for this request.
    pub open spec fn json(&self) -> Seq<char> {
        request_json(self.plugin@, texts(self.references@), texts(self.preprocessor@))
    }

    /// The JSON object that stands for this request.
    pub fn to_json(&self) -> (json: String)
        ensures
            json@ == self.json(),
            json@ == "{\"plugin\":"@ + json_string(self.plugin@) + ",\"references\":"@ + json_list(
                texts(self.references@),
            ) + ",\"preprocessor\":"@ + json_list(texts(self.preprocessor@)) + "}"@,
    {
        let mut json = String::new();
        json.append("{\"plugin\":");
        json.append(string_to_json(self.plugin.as_str()).as_str());
        json.append(",\"references\":");
        json.append(list_to_json(self.references).as_str());
        json.append(",\"preprocessor\":");
        json.append(list_to_json(self.preprocessor).as_str());
        json.append("}");
        assert(json@ =~= self.json());
        json
    }
}

/// What a response means. That the compiler gave up outweighs what it says of success.
pub open spec fn response_outcome(success: bool, errored: bool, errors: Seq<Seq<char>>) -> Outcome {
    if errored {
        Outcome::Errored(join_with(errors, "; "@))
    } else if success {
        Outcome::Success
    } else {
        Outcome::Failure(errors)
    }
}

/// What a parsed reply means; a reply that is no response is an error, with the parser's message.
pub open spec fn parsed_outcome(parsed: Result<CompileResponse, String>) -> Outcome {
    match parsed {
        Ok(response) => response_outcome(
            response.success,
            response.errored,
            texts(response.errors@),
        ),
        Err(message) => Outcome::Errored(message@),
    }
}

/// What a parsed reply means.
pub fn judge(parsed: Result<CompileResponse, String>) -> (result: CompileResult)
    ensures
        result@ == parsed_outcome(parsed),
        result is Success <==> parsed is Ok && !parsed->Ok_0.errored && parsed->Ok_0.success,
        result is Failure <==> parsed is Ok && !parsed->Ok_0.errored && !parsed->Ok_0.success,
        result is Failure ==> result->Failure_0 == parsed->Ok_0.errors,
        parsed is Err ==> result is Errored && result->Errored_0 == parsed->Err_0,
        parsed is Ok && parsed->Ok_0.errored ==> result is Errored && result->Errored_0@
            == join_with(texts(parsed->Ok_0.errors@), "; "@),
{
    match parsed {
        Err(message) => CompileResult::Errored(message),
        Ok(response) => if response.errored {
            CompileResult::Errored(join(&response.errors, "; "))
        } else if response.success {
            CompileResult::Success
        } else {
            CompileResult::Failure(response.errors)
        },
    }
}

/// The text of a reply. Bytes that are no text make an error.
pub fn reply_text(reply: &[u8]) -> (text: Result<String, CompileResult>)
    ensures
        match text {
            Ok(t) => valid_utf8(reply@) && t@ == decode_utf8(reply@),
            Err(result) => !valid_utf8(reply@) && result@ == Outcome::Errored(
                utf8_error_text(reply@),
            ),
        },
        text matches Err(result) ==> result is Errored && result->Errored_0@ == utf8_error_text(
            reply@,
        ),
{
    match decode(reply) {
        Ok(text) => Ok(text),
        Err(message) => Err(CompileResult::Errored(message)),
    }
}

// ---------------------------------------------------------------------------
// One plugin

/// `outcome` is what follows from the bytes `reply`, given what `parse_fn` makes of their text
/// against the `receipt`.
pub open spec fn follows_from_reply<K, P: FnOnce(K, String) -> Result<CompileResponse, String>>(
    parse_fn: P,
    receipt: K,
    reply: Seq<u8>,
    outcome: Outcome,
) -> bool {
    if valid_utf8(reply) {
        exists|text: String, parsed: Result<CompileResponse, String>|
            {
                &&& text@ == decode_utf8(reply)
                &&& #[trigger] call_ensures(parse_fn, (receipt, text), parsed)
                &&& outcome == parsed_outcome(parsed)
            }
    } else {
        outcome == Outcome::Errored(utf8_error_text(reply))
    }
}

/// The compiler got `json` as a C string, its reply was read and then given back for a receipt,
/// and `outcome` is what follows from that reply.
pub open spec fn compiled<
    H,
    K,
    C: FnOnce(Vec<u8>) -> H,
    R: FnOnce(&H) -> Vec<u8>,
    F: FnOnce(H) -> K,
    P: FnOnce(K, String) -> Result<CompileResponse, String>,
>(compile_fn: C, read_fn: R, free_fn: F, parse_fn: P, json: Seq<char>, outcome: Outcome) -> bool {
    exists|sent: Vec<u8>, handle: H, reply: Vec<u8>, receipt: K|
        {
            &&& sent@ == c_string_of(json)
            &&& #[trigger] call_ensures(compile_fn, (sent,), handle)
            &&& #[trigger] call_ensures(read_fn, (&handle,), reply)
            &&& #[trigger] call_ensures(free_fn, (handle,), receipt)
            &&& follows_from_reply(parse_fn, receipt, reply@, outcome)
        }
}

/// Compiles a single plugin.
///
/// `compile_fn` hands the request, as a C string, to the compiler and gives a handle on its reply;
/// `read_fn` copies the reply out; `free_fn` gives it back to the compiler, and gives a receipt;
/// `parse_fn` parses the copy as a response. There is always a result: whatever goes wrong becomes
/// `CompileResult::Errored`, so that one bad plugin cannot keep the others from being compiled.
///
/// Each of the functions can be called only once, and the contract says that it is called. So the
/// compiler gets one request, and its one reply is given back once, whatever the result. As
/// `parse_fn` takes the receipt, which nothing but `free_fn` gives, the reply has been given back
/// before anything that may go wrong is done with the copy.
pub fn compile_one<H, K, C, R, F, P>(
    compile_fn: C,
    read_fn: R,
    free_fn: F,
    parse_fn: P,
    request: &CompileRequest<'_>,
) -> (result: CompileResult) where
    C: FnOnce(Vec<u8>) -> H,
    R: FnOnce(&H) -> Vec<u8>,
    F: FnOnce(H) -> K,
    P: FnOnce(K, String) -> Result<CompileResponse, String>,

    requires
        forall|sent: Vec<u8>|
            is_c_string(sent@) ==> #[trigger] call_requires(compile_fn, (sent,)),
        forall|handle: H| #[trigger] call_requires(read_fn, (&handle,)),
        forall|handle: H| #[trigger] call_requires(free_fn, (handle,)),
        forall|receipt: K, text: String| #[trigger] call_requires(parse_fn, (receipt, text)),
    ensures
        compiled(compile_fn, read_fn, free_fn, parse_fn, request.json(), result@),
        exists|sent: Vec<u8>, handle: H, reply: Vec<u8>, receipt: K|
            {
                &&& sent@ == encode_utf8(request.json()).push(0)
                &&& #[trigger] call_ensures(compile_fn, (sent,), handle)
                &&& #[trigger] call_ensures(read_fn, (&handle,), reply)
                &&& #[trigger] call_ensures(free_fn, (handle,), receipt)
                &&& !valid_utf8(reply@) ==> result is Errored && result->Errored_0@
                    == utf8_error_text(reply@)
                &&& valid_utf8(reply@) ==> exists|
                    text: String,
                    parsed: Result<CompileResponse, String>,
                |
                    {
                        &&& text@ == decode_utf8(reply@)
                        &&& #[trigger] call_ensures(parse_fn, (receipt, text), parsed)
                        &&& result is Success <==> parsed is Ok && !parsed->Ok_0.errored
                            && parsed->Ok_0.success
                        &&& result is Failure <==> parsed is Ok && !parsed->Ok_0.errored
                            && !parsed->Ok_0.success
                        &&& result is Failure ==> result->Failure_0 == parsed->Ok_0.errors
                        &&& parsed is Err ==> result->Errored_0 == parsed->Err_0
                        &&& parsed is Ok && parsed->Ok_0.errored ==> result->Errored_0@
                            == join_with(texts(parsed->Ok_0.errors@), "; "@)
                    }
            },
{
    let json = request.to_json();
    let sent = c_string(json.as_str());
    proof {
        requests_are_c_strings(request);
    }
    let handle = compile_fn(sent);
    let reply = read_fn(&handle);
    let receipt = free_fn(handle);
    match reply_text(reply.as_slice()) {
        Err(result) => result,
        Ok(text) => {
            let parsed = parse_fn(receipt, text);
            judge(parsed)
        },
    }
}

/// A request goes to the compiler in full: its C string has no zero before the end.
pub proof fn requests_are_c_strings(request: &CompileRequest<'_>)
    ensures
        is_c_string(c_string_of(request.json())),
        decode_utf8(c_string_of(request.json()).drop_last()) == request.json(),
{
    lemma_request_is_printable(
        request.plugin@,
        texts(request.references@),
        texts(request.preprocessor@),
    );
    assert forall|i: int| 0 <= i < request.json().len() implies #[trigger] request.json()[i]
        != '\0' by {
        assert(request.json()[i] as nat >= 0x20);
    }
    crate::bytes::texts_without_zero_are_c_strings(request.json());
}

proof fn lemma_request_is_printable(
    plugin: Seq<char>,
    references: Seq<Seq<char>>,
    preprocessor: Seq<Seq<char>>,
)
    ensures
        printable(request_json(plugin, references, preprocessor)),
{
    reveal_strlit("{\"plugin\":");
    reveal_strlit(",\"references\":");
    reveal_strlit(",\"preprocessor\":");
    reveal_strlit("}");
    crate::json::json_string_is_printable(plugin);
    crate::json::json_list_is_printable(references);
    crate::json::json_list_is_printable(preprocessor);
    let a = "{\"plugin\":"@ + json_string(plugin);
    let b = a + ",\"references\":"@ + json_list(references);
    let c = b + ",\"preprocessor\":"@ + json_list(preprocessor);
    assert(printable("{\"plugin\":"@) && printable(",\"references\":"@) && printable(
        ",\"preprocessor\":"@,
    ) && printable("}"@));
    assert(printable(a));
    assert(printable(b));
    assert(printable(c));
}

/// The compiler can tell requests apart: two have the same JSON only if they ask the same.
pub proof fn requests_are_told_apart(a: &CompileRequest<'_>, b: &CompileRequest<'_>)
    requires
        a.json() == b.json(),
    ensures
        a.plugin@ == b.plugin@,
        texts(a.references@) == texts(b.references@),
        texts(a.preprocessor@) == texts(b.preprocessor@),
{
    let (p, q) = (a.plugin@, b.plugin@);
    let (r, s) = (texts(a.references@), texts(b.references@));
    let (t, u) = (texts(a.preprocessor@), texts(b.preprocessor@));
    lemma_request_parts(p, r, t);
    lemma_request_parts(q, s, u);
    lemma_same_start("{\"plugin\":"@, request_after_start(p, r, t), request_after_start(q, s, u));
    crate::json::json_string_is_self_delimiting(
        p,
        request_after_plugin(r, t),
        q,
        request_after_plugin(s, u),
    );
    lemma_same_start(
        ",\"references\":"@,
        json_list(r) + request_after_references(t),
        json_list(s) + request_after_references(u),
    );
    crate::json::json_list_is_self_delimiting(
        r,
        request_after_references(t),
        s,
        request_after_references(u),
    );
    lemma_same_start(",\"preprocessor\":"@, json_list(t) + "}"@, json_list(u) + "}"@);
    crate::json::json_list_is_self_delimiting(t, "}"@, u, "}"@);
}

/// A request as the compiler reads it.
pub open spec fn request_read(
    plugin: Seq<char>,
    references: Seq<Seq<char>>,
    preprocessor: Seq<Seq<char>>,
) -> Json {
    Json::Object(
        seq![
            ("plugin"@, Json::Text(plugin)),
            (
                "references"@,
                Json::List(references.map_values(|text: Seq<char>| Json::Text(text))),
            ),
            (
                "preprocessor"@,
                Json::List(preprocessor.map_values(|text: Seq<char>| Json::Text(text))),
            ),
        ],
    )
}

/// A request comes back as it went: the C string that the compiler gets, decoded and parsed, is an
/// object of the plugin, the references and the symbols that the request was made of.
pub proof fn requests_are_read_back(request: &CompileRequest<'_>)
    ensures
        parsed(decode_utf8(c_string_of(request.json()).drop_last())) == Some(
            request_read(
                request.plugin@,
                texts(request.references@),
                texts(request.preprocessor@),
            ),
        ),
{
    let (plugin, references, preprocessor) = (
        request.plugin@,
        texts(request.references@),
        texts(request.preprocessor@),
    );
    requests_are_c_strings(request);
    lemma_request_says(plugin, references, preprocessor);
    crate::json::what_is_said_is_parsed(
        request.json(),
        request_read(plugin, references, preprocessor),
    );
}

proof fn lemma_request_says(
    plugin: Seq<char>,
    references: Seq<Seq<char>>,
    preprocessor: Seq<Seq<char>>,
)
    ensures
        says(
            request_json(plugin, references, preprocessor),
            request_read(plugin, references, preprocessor),
        ),
{
    let members = seq![
        ("plugin"@, json_string(plugin)),
        ("references"@, json_list(references)),
        ("preprocessor"@, json_list(preprocessor)),
    ];
    crate::json::strings_say_their_text(plugin);
    crate::json::lists_say_their_texts(references);
    crate::json::lists_say_their_texts(preprocessor);
    crate::json::objects_say_their_members(
        members,
        request_read(plugin, references, preprocessor)->Object_0,
    );
    lemma_request_is_object(plugin, references, preprocessor);
}

proof fn lemma_request_is_object(
    plugin: Seq<char>,
    references: Seq<Seq<char>>,
    preprocessor: Seq<Seq<char>>,
)
    ensures
        request_json(plugin, references, preprocessor) == json_object(
            seq![
                ("plugin"@, json_string(plugin)),
                ("references"@, json_list(references)),
                ("preprocessor"@, json_list(preprocessor)),
            ],
        ),
{
    reveal_strlit("plugin");
    reveal_strlit("references");
    reveal_strlit("preprocessor");
    reveal_strlit("{\"plugin\":");
    reveal_strlit(",\"references\":");
    reveal_strlit(",\"preprocessor\":");
    reveal_strlit("}");
    crate::json::plain_texts_are_only_quoted("plugin"@);
    crate::json::plain_texts_are_only_quoted("references"@);
    crate::json::plain_texts_are_only_quoted("preprocessor"@);
    assert("{\"plugin\":"@ =~= seq!['{'] + (json_string("plugin"@) + seq![':']));
    assert(",\"references\":"@ =~= seq![','] + (json_string("references"@) + seq![':']));
    assert(",\"preprocessor\":"@ =~= seq![','] + (json_string("preprocessor"@) + seq![':']));
    let members = seq![
        ("plugin"@, json_string(plugin)),
        ("references"@, json_list(references)),
        ("preprocessor"@, json_list(preprocessor)),
    ];
    let written = members.map_values(
        |member: (Seq<char>, Seq<char>)| json_member(member.0, member.1),
    );
    let a = json_member("plugin"@, json_string(plugin));
    let b = json_member("references"@, json_list(references));
    let c = json_member("preprocessor"@, json_list(preprocessor));
    assert(written =~= seq![a, b, c]);
    assert(seq![a, b, c].drop_first() =~= seq![b, c]);
    assert(seq![b, c].drop_first() =~= seq![c]);
    assert(join_with(seq![c], seq![',']) == c);
    assert(join_with(seq![b, c], seq![',']) == b + seq![','] + c);
    assert(join_with(written, seq![',']) == a + seq![','] + (b + seq![','] + c));
    assert(request_json(plugin, references, preprocessor) =~= json_object(members));
}

/// The end of a request, after its references.
spec fn request_after_references(preprocessor: Seq<Seq<char>>) -> Seq<char> {
    ",\"preprocessor\":"@ + (json_list(preprocessor) + "}"@)
}

/// The end of a request, after its plugin.
spec fn request_after_plugin(references: Seq<Seq<char>>, preprocessor: Seq<Seq<char>>) -> Seq<char> {
    ",\"references\":"@ + (json_list(references) + request_after_references(preprocessor))
}

/// The end of a request, from its plugin on.
spec fn request_after_start(
    plugin: Seq<char>,
    references: Seq<Seq<char>>,
    preprocessor: Seq<Seq<char>>,
) -> Seq<char> {
    json_string(plugin) + request_after_plugin(references, preprocessor)
}

proof fn lemma_request_parts(
    plugin: Seq<char>,
    references: Seq<Seq<char>>,
    preprocessor: Seq<Seq<char>>,
)
    ensures
        request_json(plugin, references, preprocessor) == "{\"plugin\":"@ + request_after_start(
            plugin,
            references,
            preprocessor,
        ),
{
    assert(request_json(plugin, references, preprocessor) =~= "{\"plugin\":"@ + request_after_start(
        plugin,
        references,
        preprocessor,
    ));
}

/// What follows the same start is the same.
proof fn lemma_same_start(start: Seq<char>, x: Seq<char>, y: Seq<char>)
    requires
        start + x == start + y,
    ensures
        x == y,
{
    assert((start + x).skip(start.len() as int) =~= x);
    assert((start + y).skip(start.len() as int) =~= y);
}

// ---------------------------------------------------------------------------
// All plugins

/// The most compilations that run at a time. Each holds the symbols of all references and its own
/// buffers, so more would cost memory for little speed.
pub const MAX_JOBS: usize = 8;

/// The number of compilations that run at a time where `available` can; one where that is unknown.
pub open spec fn jobs_for(available: Option<usize>) -> usize {
    let wanted = match available {
        Some(n) => n,
        None => 1,
    };
    if wanted < MAX_JOBS {
        wanted
    } else {
        MAX_JOBS
    }
}

/// The number of compilations that run at a time where `available` can.
pub fn worker_count(available: Option<usize>) -> (jobs: usize)
    ensures
        jobs == jobs_for(available),
        jobs <= MAX_JOBS,
        available matches Some(n) ==> jobs <= n && (n > 0 ==> jobs > 0),
        available is None ==> jobs == 1,
        available matches Some(n) ==> (n <= 8 ==> jobs == n) && (n > 8 ==> jobs == 8),
{
    let wanted: usize = match available {
        Some(n) => n,
        None => 1,
    };
    if wanted < MAX_JOBS {
        wanted
    } else {
        MAX_JOBS
    }
}

/// Where the compiler's runtime configuration is, in the compiler's folder.
pub fn runtime_config(compiler_dir: DataPath) -> (path: DataPath)
    ensures
        path@ == compiler_dir@.push("OxideCompiler.runtimeconfig.json"@),
{
    compiler_dir.join("OxideCompiler.runtimeconfig.json")
}

/// Where the compiler's assembly is, in the compiler's folder.
pub fn compiler_dll(compiler_dir: DataPath) -> (path: DataPath)
    ensures
        path@ == compiler_dir@.push("OxideCompiler.dll"@),
{
    compiler_dir.join("OxideCompiler.dll")
}

/// The reference at index `i` is the game's assembly, and none before it is.
pub open spec fn game_assembly_at(references: Seq<FilePath>, i: int) -> bool {
    &&& 0 <= i < references.len()
    &&& is_named(name_bytes(references[i].name), "Assembly-CSharp.dll"@)
    &&& forall|k: int|
        0 <= k < i ==> !is_named(name_bytes(#[trigger] references[k].name), "Assembly-CSharp.dll"@)
}

/// None of the references is the game's assembly.
pub open spec fn no_game_assembly(references: Seq<FilePath>) -> bool {
    forall|k: int|
        0 <= k < references.len() ==> !is_named(
            name_bytes(#[trigger] references[k].name),
            "Assembly-CSharp.dll"@,
        )
}

/// The first of the references that is the game's assembly.
pub fn game_assembly(references: &Vec<FilePath>) -> (at: Option<usize>)
    ensures
        match at {
            Some(i) => game_assembly_at(references@, i as int),
            None => no_game_assembly(references@),
        },
        at matches Some(i) ==> {
            &&& i < references@.len()
            &&& references@[i as int].name is Some
            &&& references@[i as int].name->0@ == encode_utf8("Assembly-CSharp.dll"@)
            &&& forall|k: int|
                0 <= k < i && (#[trigger] references@[k]).name is Some
                    ==> references@[k].name->0@ != encode_utf8("Assembly-CSharp.dll"@)
        },
        at is None ==> forall|k: int|
            0 <= k < references@.len() && (#[trigger] references@[k]).name is Some
                ==> references@[k].name->0@ != encode_utf8("Assembly-CSharp.dll"@),
{
    let mut i: usize = 0;
    while i < references.len()
        invariant
            i <= references@.len(),
            forall|k: int|
                0 <= k < i ==> !is_named(
                    name_bytes(#[trigger] references@[k].name),
                    "Assembly-CSharp.dll"@,
                ),
        decreases references@.len() - i,
    {
        if has_name(&references[i].name, "Assembly-CSharp.dll") {
            return Some(i);
        }
        i += 1;
    }
    None
}

/// The texts of `paths`.
pub open spec fn path_texts(paths: Seq<FilePath>) -> Seq<Seq<char>> {
    paths.map_values(|path: FilePath| path.text@)
}

/// The texts of `paths`.
fn texts_of_paths(paths: &Vec<FilePath>) -> (list: Vec<String>)
    ensures
        texts(list@) == path_texts(paths@),
        list@.len() == paths@.len(),
        forall|i: int| 0 <= i < paths@.len() ==> (#[trigger] list@[i])@ == paths@[i].text@,
{
    let mut list: Vec<String> = Vec::new();
    let mut i: usize = 0;
    while i < paths.len()
        invariant
            i <= paths@.len(),
            list@.len() == i,
            forall|k: int| 0 <= k < i ==> list@[k]@ == paths@[k].text@,
        decreases paths@.len() - i,
    {
        list.push(paths[i].text.clone());
        i += 1;
    }
    assert(texts(list@) =~= path_texts(paths@));
    list
}

/// `requests` ask, plugin by plugin and in order, for a compilation against all `references`.
pub open spec fn requests_for(
    requests: Seq<CompileRequest<'_>>,
    plugins: Seq<Plugin>,
    references: Seq<Seq<char>>,
    preprocessor: Seq<Seq<char>>,
) -> bool {
    &&& requests.len() == plugins.len()
    &&& forall|i: int|
        #![trigger requests[i]]
        0 <= i < requests.len() ==> {
            &&& requests[i].plugin@ == plugins[i].path.text@
            &&& texts(requests[i].references@) == references
            &&& texts(requests[i].preprocessor@) == preprocessor
        }
}

/// The requests for `plugins`, in order.
fn make_requests<'a>(
    plugins: &Vec<Plugin>,
    references: &'a [String],
    preprocessor: &'a [String],
) -> (requests: Vec<CompileRequest<'a>>)
    ensures
        requests_for(requests@, plugins@, texts(references@), texts(preprocessor@)),
        requests@.len() == plugins@.len(),
        forall|i: int|
            0 <= i < plugins@.len() ==> {
                &&& (#[trigger] requests@[i]).plugin@ == plugins@[i].path.text@
                &&& requests@[i].references@ == references@
                &&& requests@[i].preprocessor@ == preprocessor@
            },
{
    let mut requests: Vec<CompileRequest<'a>> = Vec::new();
    let mut i: usize = 0;
    while i < plugins.len()
        invariant
            i <= plugins@.len(),
            requests@.len() == i,
            forall|k: int|
                #![trigger requests@[k]]
                0 <= k < i ==> {
                    &&& requests@[k].plugin@ == plugins@[k].path.text@
                    &&& requests@[k].references@ == references@
                    &&& requests@[k].preprocessor@ == preprocessor@
                },
        decreases plugins@.len() - i,
    {
        requests.push(
            CompileRequest { plugin: plugins[i].path.text.clone(), references, preprocessor },
        );
        i += 1;
    }
    requests
}

/// `results` are the `outcomes`, each with the name and the author of the plugin in its place.
pub open spec fn labelled(
    results: Seq<(String, String, CompileResult)>,
    plugins: Seq<Plugin>,
    outcomes: Seq<CompileResult>,
) -> bool {
    &&& results.len() == if plugins.len() < outcomes.len() {
        plugins.len()
    } else {
        outcomes.len()
    }
    &&& forall|i: int|
        #![trigger results[i]]
        0 <= i < results.len() ==> {
            &&& results[i].0@ == plugins[i].name@
            &&& results[i].1@ == plugins[i].author@
            &&& results[i].2 == outcomes[i]
        }
}

/// The name, the author and the outcome of each plugin.
pub open spec fn outcomes_of(results: Seq<(String, String, CompileResult)>) -> Seq<
    (Seq<char>, Seq<char>, Outcome),
> {
    results.map_values(|r: (String, String, CompileResult)| (r.0@, r.1@, r.2@))
}

/// Puts the name and the author of its plugin in front of each outcome.
pub fn label(plugins: &Vec<Plugin>, outcomes: Vec<CompileResult>) -> (results: Vec<
    (String, String, CompileResult),
>)
    ensures
        labelled(results@, plugins@, outcomes@),
        outcomes@.len() <= plugins@.len() ==> results@.len() == outcomes@.len(),
        plugins@.len() <= outcomes@.len() ==> results@.len() == plugins@.len(),
        forall|i: int|
            #![trigger results@[i]]
            0 <= i < plugins@.len() && i < outcomes@.len() ==> {
                &&& results@[i].0@ == plugins@[i].name@
                &&& results@[i].1@ == plugins@[i].author@
                &&& results@[i].2 == outcomes@[i]
            },
{
    let ghost all = outcomes@;
    let mut results: Vec<(String, String, CompileResult)> = Vec::new();
    for outcome in it: outcomes
        invariant
            it.seq() == all,
            results@.len() == if plugins@.len() < it.index() {
                plugins@.len() as int
            } else {
                it.index() as int
            },
            forall|k: int|
                #![trigger results@[k]]
                0 <= k < results@.len() ==> {
                    &&& results@[k].0@ == plugins@[k].name@
                    &&& results@[k].1@ == plugins@[k].author@
                    &&& results@[k].2 == all[k]
                },
    {
        let i: usize = results.len();
        if i < plugins.len() {
            results.push((plugins[i].name.clone(), plugins[i].author.clone(), outcome));
        }
    }
    results
}

/// What to hand to the step that opens up the game's assembly: the path of the first reference
/// that is the game's assembly, and nothing where there is none.
pub open spec fn to_publicize(references: Seq<FilePath>, path: Option<&String>) -> bool {
    match path {
        None => no_game_assembly(references),
        Some(text) => exists|i: int|
            #[trigger] game_assembly_at(references, i) && *text == references[i].text,
    }
}

/// The warning that a status calls for: none where there was no assembly to open up, and none where
/// the status is zero.
pub open spec fn is_warning_for(asked: bool, status: i32, warning: Option<&str>) -> bool {
    match warning {
        None => !(asked && status != 0),
        Some(text) => asked && status != 0 && text@
            == "warning: failed to publicize Assembly-CSharp.dll"@,
    }
}

/// The warning that `status` calls for, where the game's assembly was to be opened up if `asked`.
pub fn publicize_warning(asked: bool, status: i32) -> (warning: Option<&'static str>)
    ensures
        is_warning_for(asked, status, warning),
        warning is Some <==> asked && status != 0,
        warning is Some ==> warning->0@ == "warning: failed to publicize Assembly-CSharp.dll"@,
{
    if asked && status != 0 {
        Some("warning: failed to publicize Assembly-CSharp.dll")
    } else {
        None
    }
}

/// `publicize` was handed the game's assembly, if it is among the references, and gave `opened`.
pub open spec fn publicized<E, K, Z: FnOnce(Option<&String>) -> Result<(i32, K), E>>(
    publicize: Z,
    references: Seq<FilePath>,
    opened: Result<(i32, K), E>,
) -> bool {
    exists|path: Option<&String>|
        to_publicize(references, path) && #[trigger] call_ensures(publicize, (path,), opened)
}

/// `warn` was handed the warning that `status` calls for, if any, and gave `after` for `before`.
pub open spec fn warned<K, W: FnOnce(K, Option<&str>) -> K>(
    warn: W,
    before: K,
    references: Seq<FilePath>,
    status: i32,
    after: K,
) -> bool {
    exists|warning: Option<&str>|
        {
            &&& is_warning_for(!no_game_assembly(references), status, warning)
            &&& #[trigger] call_ensures(warn, (before, warning), after)
        }
}

/// `run` was handed the requests for `plugins` and the number of jobs, and gave `answer`.
pub open spec fn ran<
    E,
    K,
    N: for<'r> FnOnce(K, &Vec<CompileRequest<'r>>, usize) -> Result<Vec<CompileResult>, E>,
>(
    run: N,
    receipt: K,
    plugins: Seq<Plugin>,
    references: Seq<FilePath>,
    preprocessor: Seq<Seq<char>>,
    jobs: usize,
    answer: Result<Vec<CompileResult>, E>,
) -> bool {
    exists|requests: Vec<CompileRequest<'_>>|
        {
            &&& requests_for(requests@, plugins, path_texts(references), preprocessor)
            &&& #[trigger] call_ensures(run, (receipt, &requests, jobs), answer)
        }
}

/// What compiling all plugins comes to where `run` gives `answer`.
pub open spec fn concluded<E>(
    results: Result<Vec<(String, String, CompileResult)>, E>,
    plugins: Seq<Plugin>,
    answer: Result<Vec<CompileResult>, E>,
) -> bool {
    match answer {
        Err(error) => results is Err && results->Err_0 == error,
        Ok(outcomes) => results is Ok && labelled(results->Ok_0@, plugins, outcomes@),
    }
}

/// `results` are what running all compilations came to.
pub open spec fn ran_to<
    E,
    K,
    N: for<'r> FnOnce(K, &Vec<CompileRequest<'r>>, usize) -> Result<Vec<CompileResult>, E>,
>(
    run: N,
    receipt: K,
    plugins: Seq<Plugin>,
    references: Seq<FilePath>,
    preprocessor: Seq<Seq<char>>,
    jobs: usize,
    results: Result<Vec<(String, String, CompileResult)>, E>,
) -> bool {
    exists|answer: Result<Vec<CompileResult>, E>|
        {
            &&& #[trigger] ran(run, receipt, plugins, references, preprocessor, jobs, answer)
            &&& concluded(results, plugins, answer)
        }
}

/// What follows where `publicize` gives `opened`: an error ends it all; otherwise `warn` and then
/// `run` get their turn.
pub open spec fn follows_from_opening<
    E,
    K,
    W: FnOnce(K, Option<&str>) -> K,
    N: for<'r> FnOnce(K, &Vec<CompileRequest<'r>>, usize) -> Result<Vec<CompileResult>, E>,
>(
    warn: W,
    run: N,
    opened: Result<(i32, K), E>,
    plugins: Seq<Plugin>,
    references: Seq<FilePath>,
    preprocessor: Seq<Seq<char>>,
    jobs: usize,
    results: Result<Vec<(String, String, CompileResult)>, E>,
) -> bool {
    match opened {
        Err(error) => results is Err && results->Err_0 == error,
        Ok((status, receipt)) => exists|next: K|
            {
                &&& #[trigger] warned(warn, receipt, references, status, next)
                &&& ran_to(run, next, plugins, references, preprocessor, jobs, results)
            },
    }
}

/// Compiles all plugins and gives, in their order, the name, the author and the result of each.
///
/// `publicize` opens up the game's assembly for the compiler, if it gets one, and gives a status
/// that is zero on success, and a receipt; `warn` shows a warning, if it gets one; `run` compiles
/// the requests, at most as many at a time as it is told, and gives the results in order. An error
/// of `publicize` or of `run` ends it all; that the assembly could not be opened up only gives a
/// warning.
///
/// Each of the functions can be called only once. As `warn` takes the receipt, which nothing but
/// `publicize` gives, and `run` takes what `warn` gives for it, they are called in this order, and
/// nothing is compiled where `publicize` gives an error. How many compilations are in flight at a
/// moment is up to `run`; it is told the most that there may be.
pub fn compile_all<E, K, Z, W, N>(
    plugins: &Vec<Plugin>,
    references: &Vec<FilePath>,
    preprocessor: &Vec<String>,
    available: Option<usize>,
    publicize: Z,
    warn: W,
    run: N,
) -> (results: Result<Vec<(String, String, CompileResult)>, E>) where
    Z: FnOnce(Option<&String>) -> Result<(i32, K), E>,
    W: FnOnce(K, Option<&str>) -> K,
    N: for<'r> FnOnce(K, &Vec<CompileRequest<'r>>, usize) -> Result<Vec<CompileResult>, E>,

    requires
        forall|path: Option<&String>| #[trigger] call_requires(publicize, (path,)),
        forall|receipt: K, warning: Option<&str>| #[trigger]
            call_requires(warn, (receipt, warning)),
        forall|receipt: K, requests: Vec<CompileRequest<'_>>, jobs: usize| #[trigger]
            call_requires(run, (receipt, &requests, jobs)),
    ensures
        exists|opened: Result<(i32, K), E>|
            {
                &&& #[trigger] publicized(publicize, references@, opened)
                &&& follows_from_opening(
                    warn,
                    run,
                    opened,
                    plugins@,
                    references@,
                    texts(preprocessor@),
                    jobs_for(available),
                    results,
                )
            },
        exists|path: Option<&String>, opened: Result<(i32, K), E>|
            {
                &&& #[trigger] call_ensures(publicize, (path,), opened)
                &&& path is None ==> forall|k: int|
                    0 <= k < references@.len() && (#[trigger] references@[k]).name is Some
                        ==> references@[k].name->0@ != encode_utf8("Assembly-CSharp.dll"@)
                &&& path is Some ==> exists|i: int|
                    {
                        &&& 0 <= i < references@.len()
                        &&& *path->0 == (#[trigger] references@[i]).text
                        &&& references@[i].name is Some
                        &&& references@[i].name->0@ == encode_utf8("Assembly-CSharp.dll"@)
                        &&& forall|k: int|
                            0 <= k < i && (#[trigger] references@[k]).name is Some
                                ==> references@[k].name->0@ != encode_utf8("Assembly-CSharp.dll"@)
                    }
                &&& opened is Err ==> results is Err && results->Err_0 == opened->Err_0
                &&& opened is Ok ==> exists|warning: Option<&str>, next: K|
                    {
                        &&& #[trigger] call_ensures(warn, (opened->Ok_0.1, warning), next)
                        &&& warning is Some <==> path is Some && opened->Ok_0.0 != 0
                        &&& warning is Some ==> warning->0@
                            == "warning: failed to publicize Assembly-CSharp.dll"@
                        &&& exists|
                            requests: Vec<CompileRequest<'_>>,
                            jobs: usize,
                            answer: Result<Vec<CompileResult>, E>,
                        |
                            {
                                &&& #[trigger] call_ensures(run, (next, &requests, jobs), answer)
                                &&& available is None ==> jobs == 1
                                &&& available matches Some(n) ==> (n <= 8 ==> jobs == n) && (n > 8
                                    ==> jobs == 8)
                                &&& requests@.len() == plugins@.len()
                                &&& forall|i: int|
                                    0 <= i < plugins@.len() ==> {
                                        &&& (#[trigger] requests@[i]).plugin@
                                            == plugins@[i].path.text@
                                        &&& requests@[i].references@.len() == references@.len()
                                        &&& requests@[i].preprocessor@ == preprocessor@
                                    }
                                &&& forall|i: int, j: int|
                                    0 <= i < plugins@.len() && 0 <= j < references@.len() ==> (
                                    #[trigger] requests@[i].references@[j])@ == references@[j].text@
                                &&& answer is Err ==> results is Err && results->Err_0
                                    == answer->Err_0
                                &&& answer is Ok ==> {
                                    &&& results is Ok
                                    &&& answer->Ok_0@.len() <= plugins@.len()
                                        ==> results->Ok_0@.len() == answer->Ok_0@.len()
                                    &&& plugins@.len() <= answer->Ok_0@.len()
                                        ==> results->Ok_0@.len() == plugins@.len()
                                    &&& forall|i: int|
                                        0 <= i < results->Ok_0@.len() ==> {
                                            &&& (#[trigger] results->Ok_0@[i]).0@
                                                == plugins@[i].name@
                                            &&& results->Ok_0@[i].1@ == plugins@[i].author@
                                            &&& results->Ok_0@[i].2 == answer->Ok_0@[i]
                                        }
                                }
                            }
                    }
            },
{
    let path: Option<&String> = match game_assembly(references) {
        Some(i) => Some(&references[i].text),
        None => None,
    };
    let asked: bool = path.is_some();
    assert(to_publicize(references@, path));
    assert(asked == !no_game_assembly(references@));
    let opened = publicize(path);
    assert(publicized(publicize, references@, opened));
    match opened {
        Err(error) => Err(error),
        Ok((status, receipt)) => {
            let next = warn(receipt, publicize_warning(asked, status));
            assert(warned(warn, receipt, references@, status, next));
            let refs = texts_of_paths(references);
            let requests = make_requests(plugins, refs.as_slice(), preprocessor.as_slice());
            let jobs: usize = worker_count(available);
            let answer = run(next, &requests, jobs);
            assert(ran(
                run,
                next,
                plugins@,
                references@,
                texts(preprocessor@),
                jobs_for(available),
                answer,
            ));
            let results = match answer {
                Err(error) => Err(error),
                Ok(outcomes) => Ok(label(plugins, outcomes)),
            };
            assert(concluded(results, plugins@, answer));
            results
        },
    }
}

/// Each plugin gets its own result, in order: where as many outcomes come back as there are
/// plugins, none is lost and none is mixed up.
pub proof fn results_line_up(
    results: Seq<(String, String, CompileResult)>,
    plugins: Seq<Plugin>,
    outcomes: Seq<CompileResult>,
    i: int,
)
    requires
        labelled(results, plugins, outcomes),
        outcomes.len() == plugins.len(),
        0 <= i < plugins.len(),
    ensures
        results.len() == plugins.len(),
        results[i].0@ == plugins[i].name@,
        results[i].1@ == plugins[i].author@,
        results[i].2 == outcomes[i],
{
}

// ---------------------------------------------------------------------------
// What the results are

/// Whatever `run` answers, it answers each request, in order, with an outcome that `meets` holds of
/// for the JSON of that request.
pub open spec fn answers_each<
    E,
    K,
    N: for<'r> FnOnce(K, &Vec<CompileRequest<'r>>, usize) -> Result<Vec<CompileResult>, E>,
>(run: N, meets: spec_fn(Seq<char>, Outcome) -> bool) -> bool {
    forall|
        receipt: K,
        requests: Vec<CompileRequest<'_>>,
        jobs: usize,
        answer: Result<Vec<CompileResult>, E>,
    | #[trigger]
        call_ensures(run, (receipt, &requests, jobs), answer) && answer is Ok ==> {
            &&& answer->Ok_0@.len() == requests@.len()
            &&& forall|i: int|
                0 <= i < requests@.len() ==> meets(
                    (#[trigger] requests@[i]).json(),
                    answer->Ok_0@[i]@,
                )
        }
}

/// The JSON of the request for `plugin`.
pub open spec fn json_for(
    plugin: Plugin,
    references: Seq<FilePath>,
    preprocessor: Seq<Seq<char>>,
) -> Seq<char> {
    request_json(plugin.path.text@, path_texts(references), preprocessor)
}

/// Each plugin gets the result of its own request: what holds of every answer to a request holds
/// of every result, for the request of the plugin in its place, however many jobs there are.
pub proof fn results_answer_their_own_requests<
    E,
    K,
    N: for<'r> FnOnce(K, &Vec<CompileRequest<'r>>, usize) -> Result<Vec<CompileResult>, E>,
>(
    run: N,
    receipt: K,
    plugins: Seq<Plugin>,
    references: Seq<FilePath>,
    preprocessor: Seq<Seq<char>>,
    jobs: usize,
    results: Result<Vec<(String, String, CompileResult)>, E>,
    meets: spec_fn(Seq<char>, Outcome) -> bool,
)
    requires
        ran_to(run, receipt, plugins, references, preprocessor, jobs, results),
        results is Ok,
        answers_each(run, meets),
    ensures
        results->Ok_0@.len() == plugins.len(),
        forall|i: int|
            0 <= i < plugins.len() ==> {
                &&& (#[trigger] results->Ok_0@[i]).0@ == plugins[i].name@
                &&& results->Ok_0@[i].1@ == plugins[i].author@
                &&& meets(json_for(plugins[i], references, preprocessor), results->Ok_0@[i].2@)
            },
{
    let answer = choose|answer: Result<Vec<CompileResult>, E>|
        {
            &&& #[trigger] ran(run, receipt, plugins, references, preprocessor, jobs, answer)
            &&& concluded(results, plugins, answer)
        };
    let requests = choose|requests: Vec<CompileRequest<'_>>|
        {
            &&& requests_for(requests@, plugins, path_texts(references), preprocessor)
            &&& #[trigger] call_ensures(run, (receipt, &requests, jobs), answer)
        };
    assert forall|i: int| 0 <= i < plugins.len() implies meets(
        json_for(plugins[i], references, preprocessor),
        (#[trigger] results->Ok_0@[i]).2@,
    ) by {
        assert(requests@[i].json() == json_for(plugins[i], references, preprocessor));
    }
}

/// What the compiler replies depends on what it is sent alone: `answer` gives the reply.
pub open spec fn replies_with<H, C: FnOnce(Vec<u8>) -> H, R: FnOnce(&H) -> Vec<u8>>(
    compile_fn: C,
    read_fn: R,
    answer: spec_fn(Seq<u8>) -> Seq<u8>,
) -> bool {
    forall|sent: Vec<u8>, handle: H, reply: Vec<u8>| #[trigger]
        call_ensures(compile_fn, (sent,), handle) && #[trigger] call_ensures(
            read_fn,
            (&handle,),
            reply,
        ) ==> reply@ == answer(sent@)
}

/// What a reply means depends on its text alone: `meaning` gives the outcome.
pub open spec fn parses_to<K, P: FnOnce(K, String) -> Result<CompileResponse, String>>(
    parse_fn: P,
    meaning: spec_fn(Seq<char>) -> Outcome,
) -> bool {
    forall|receipt: K, text: String, parsed: Result<CompileResponse, String>| #[trigger]
        call_ensures(parse_fn, (receipt, text), parsed) ==> parsed_outcome(parsed) == meaning(text@)
}

/// The outcome of the request `json` where `answer` gives the replies and `meaning` what they mean.
pub open spec fn settled(
    json: Seq<char>,
    answer: spec_fn(Seq<u8>) -> Seq<u8>,
    meaning: spec_fn(Seq<char>) -> Outcome,
) -> Outcome {
    let reply = answer(c_string_of(json));
    if valid_utf8(reply) {
        meaning(decode_utf8(reply))
    } else {
        Outcome::Errored(utf8_error_text(reply))
    }
}

/// A compiler that replies by the request alone gives one outcome for one request.
pub proof fn one_request_has_one_outcome<
    H,
    K,
    C: FnOnce(Vec<u8>) -> H,
    R: FnOnce(&H) -> Vec<u8>,
    F: FnOnce(H) -> K,
    P: FnOnce(K, String) -> Result<CompileResponse, String>,
>(
    compile_fn: C,
    read_fn: R,
    free_fn: F,
    parse_fn: P,
    json: Seq<char>,
    outcome: Outcome,
    answer: spec_fn(Seq<u8>) -> Seq<u8>,
    meaning: spec_fn(Seq<char>) -> Outcome,
)
    requires
        compiled(compile_fn, read_fn, free_fn, parse_fn, json, outcome),
        replies_with(compile_fn, read_fn, answer),
        parses_to(parse_fn, meaning),
    ensures
        outcome == settled(json, answer, meaning),
{
    let (sent, handle, reply, receipt) = choose|
        sent: Vec<u8>,
        handle: H,
        reply: Vec<u8>,
        receipt: K,
    |
        {
            &&& sent@ == c_string_of(json)
            &&& #[trigger] call_ensures(compile_fn, (sent,), handle)
            &&& #[trigger] call_ensures(read_fn, (&handle,), reply)
            &&& #[trigger] call_ensures(free_fn, (handle,), receipt)
            &&& follows_from_reply(parse_fn, receipt, reply@, outcome)
        };
    assert(reply@ == answer(sent@));
}

/// What compiling `plugins` one after the other gives, where `outcome_of` gives the outcome of a
/// request.
pub open spec fn one_by_one(
    plugins: Seq<Plugin>,
    references: Seq<FilePath>,
    preprocessor: Seq<Seq<char>>,
    outcome_of: spec_fn(Seq<char>) -> Outcome,
) -> Seq<(Seq<char>, Seq<char>, Outcome)> {
    plugins.map_values(
        |plugin: Plugin|
            (
                plugin.name@,
                plugin.author@,
                outcome_of(json_for(plugin, references, preprocessor)),
            ),
    )
}

/// Compiling all plugins gives what `compile_one` gives for each of them, one after the other: where
/// `run` answers each request as `compile_one` does, with a compiler that replies by the request
/// alone, neither the number of jobs nor the order in which they end makes a difference.
pub proof fn all_are_compiled_as_one_by_one<
    E,
    K,
    N: for<'r> FnOnce(K, &Vec<CompileRequest<'r>>, usize) -> Result<Vec<CompileResult>, E>,
    H,
    L,
    C: FnOnce(Vec<u8>) -> H,
    R: FnOnce(&H) -> Vec<u8>,
    F: FnOnce(H) -> L,
    P: FnOnce(L, String) -> Result<CompileResponse, String>,
>(
    run: N,
    receipt: K,
    plugins: Seq<Plugin>,
    references: Seq<FilePath>,
    preprocessor: Seq<Seq<char>>,
    jobs: usize,
    results: Result<Vec<(String, String, CompileResult)>, E>,
    compile_fn: C,
    read_fn: R,
    free_fn: F,
    parse_fn: P,
    answer: spec_fn(Seq<u8>) -> Seq<u8>,
    meaning: spec_fn(Seq<char>) -> Outcome,
)
    requires
        ran_to(run, receipt, plugins, references, preprocessor, jobs, results),
        results is Ok,
        answers_each(
            run,
            |json: Seq<char>, outcome: Outcome|
                compiled(compile_fn, read_fn, free_fn, parse_fn, json, outcome),
        ),
        replies_with(compile_fn, read_fn, answer),
        parses_to(parse_fn, meaning),
    ensures
        outcomes_of(results->Ok_0@) == one_by_one(
            plugins,
            references,
            preprocessor,
            |json: Seq<char>| settled(json, answer, meaning),
        ),
{
    let meets = |json: Seq<char>, outcome: Outcome|
        compiled(compile_fn, read_fn, free_fn, parse_fn, json, outcome);
    let outcome_of = |json: Seq<char>| settled(json, answer, meaning);
    results_answer_their_own_requests(
        run,
        receipt,
        plugins,
        references,
        preprocessor,
        jobs,
        results,
        meets,
    );
    let all = results->Ok_0@;
    assert forall|i: int| 0 <= i < plugins.len() implies (#[trigger] all[i]).2@ == outcome_of(
        json_for(plugins[i], references, preprocessor),
    ) by {
        let json = json_for(plugins[i], references, preprocessor);
        assert(meets(json, all[i].2@));
        one_request_has_one_outcome(
            compile_fn,
            read_fn,
            free_fn,
            parse_fn,
            json,
            all[i].2@,
            answer,
            meaning,
        );
    }
    assert(outcomes_of(all) =~= one_by_one(plugins, references, preprocessor, outcome_of));
}

/// Plugins are compiled independently of each other: where `outcome_of` gives the outcome of a
/// request, the results for two lists of plugins, put together, are those for the joined list.
pub proof fn joined_lists_have_joined_results<
    E,
    K,
    N: for<'r> FnOnce(K, &Vec<CompileRequest<'r>>, usize) -> Result<Vec<CompileResult>, E>,
>(
    run: (N, N, N),
    receipt: (K, K, K),
    jobs: (usize, usize, usize),
    a: Seq<Plugin>,
    b: Seq<Plugin>,
    references: Seq<FilePath>,
    preprocessor: Seq<Seq<char>>,
    results: (
        Result<Vec<(String, String, CompileResult)>, E>,
        Result<Vec<(String, String, CompileResult)>, E>,
        Result<Vec<(String, String, CompileResult)>, E>,
    ),
    outcome_of: spec_fn(Seq<char>) -> Outcome,
)
    requires
        ran_to(run.0, receipt.0, a, references, preprocessor, jobs.0, results.0),
        ran_to(run.1, receipt.1, b, references, preprocessor, jobs.1, results.1),
        ran_to(run.2, receipt.2, a + b, references, preprocessor, jobs.2, results.2),
        results.0 is Ok,
        results.1 is Ok,
        results.2 is Ok,
        answers_each(run.0, |json: Seq<char>, outcome: Outcome| outcome == outcome_of(json)),
        answers_each(run.1, |json: Seq<char>, outcome: Outcome| outcome == outcome_of(json)),
        answers_each(run.2, |json: Seq<char>, outcome: Outcome| outcome == outcome_of(json)),
    ensures
        outcomes_of(results.2->Ok_0@) == outcomes_of(results.0->Ok_0@) + outcomes_of(
            results.1->Ok_0@,
        ),
{
    lemma_one_by_one(run.0, receipt.0, jobs.0, a, references, preprocessor, results.0, outcome_of);
    lemma_one_by_one(run.1, receipt.1, jobs.1, b, references, preprocessor, results.1, outcome_of);
    lemma_one_by_one(
        run.2,
        receipt.2,
        jobs.2,
        a + b,
        references,
        preprocessor,
        results.2,
        outcome_of,
    );
    assert(one_by_one(a + b, references, preprocessor, outcome_of) =~= one_by_one(
        a,
        references,
        preprocessor,
        outcome_of,
    ) + one_by_one(b, references, preprocessor, outcome_of));
}

proof fn lemma_one_by_one<
    E,
    K,
    N: for<'r> FnOnce(K, &Vec<CompileRequest<'r>>, usize) -> Result<Vec<CompileResult>, E>,
>(
    run: N,
    receipt: K,
    jobs: usize,
    plugins: Seq<Plugin>,
    references: Seq<FilePath>,
    preprocessor: Seq<Seq<char>>,
    results: Result<Vec<(String, String, CompileResult)>, E>,
    outcome_of: spec_fn(Seq<char>) -> Outcome,
)
    requires
        ran_to(run, receipt, plugins, references, preprocessor, jobs, results),
        results is Ok,
        answers_each(run, |json: Seq<char>, outcome: Outcome| outcome == outcome_of(json)),
    ensures
        outcomes_of(results->Ok_0@) == one_by_one(plugins, references, preprocessor, outcome_of),
{
    let meets = |json: Seq<char>, outcome: Outcome| outcome == outcome_of(json);
    results_answer_their_own_requests(
        run,
        receipt,
        plugins,
        references,
        preprocessor,
        jobs,
        results,
        meets,
    );
    let all = results->Ok_0@;
    assert forall|i: int| 0 <= i < plugins.len() implies (#[trigger] all[i]).2@ == outcome_of(
        json_for(plugins[i], references, preprocessor),
    ) by {
        assert(meets(json_for(plugins[i], references, preprocessor), all[i].2@));
    }
    assert(outcomes_of(all) =~= one_by_one(plugins, references, preprocessor, outcome_of));
}

/// Without plugins there is nothing to compile: no request is made, and no result comes out,
/// whatever comes back.
pub proof fn nothing_comes_of_no_plugins(
    requests: Seq<CompileRequest<'_>>,
    references: Seq<Seq<char>>,
    preprocessor: Seq<Seq<char>>,
    outcomes: Seq<CompileResult>,
    results: Seq<(String, String, CompileResult)>,
)
    requires
        requests_for(requests, Seq::<Plugin>::empty(), references, preprocessor),
        labelled(results, Seq::<Plugin>::empty(), outcomes),
    ensures
        requests.len() == 0,
        results.len() == 0,
{
}

// ---------------------------------------------------------------------------
// What is asked, and what is made of the answer

/// What a reply comes to is decided by its two flags: a plugin is a success just where the reply
/// could be parsed, the compiler did not give up and says so, and it has compile errors just where
/// the compiler did neither. It then has all the errors of the reply, in order.
pub proof fn replies_are_judged_by_their_flags(parsed: Result<CompileResponse, String>)
    ensures
        parsed_outcome(parsed) is Success <==> parsed is Ok && !parsed->Ok_0.errored
            && parsed->Ok_0.success,
        parsed_outcome(parsed) is Failure <==> parsed is Ok && !parsed->Ok_0.errored
            && !parsed->Ok_0.success,
        parsed_outcome(parsed) is Failure ==> parsed_outcome(parsed)->Failure_0.len()
            == parsed->Ok_0.errors@.len() && forall|i: int|
            0 <= i < parsed->Ok_0.errors@.len() ==> #[trigger] parsed_outcome(
                parsed,
            )->Failure_0[i] == parsed->Ok_0.errors@[i]@,
        parsed is Err ==> parsed_outcome(parsed) == Outcome::Errored(parsed->Err_0@),
{
}

/// What the compiler says where it gave up is what it says of each error, with a semicolon between
/// each two: one message comes as it is, and two lists of errors make the two messages.
pub proof fn messages_are_put_together(
    success: bool,
    message: Seq<char>,
    a: Seq<Seq<char>>,
    b: Seq<Seq<char>>,
)
    requires
        a.len() > 0,
        b.len() > 0,
    ensures
        response_outcome(success, true, seq![message]) == Outcome::Errored(message),
        response_outcome(success, true, Seq::<Seq<char>>::empty()) == Outcome::Errored(
            Seq::<char>::empty(),
        ),
        response_outcome(success, true, a + b) is Errored,
        response_outcome(success, true, a + b)->Errored_0 == response_outcome(
            success,
            true,
            a,
        )->Errored_0 + seq![';', ' '] + response_outcome(success, true, b)->Errored_0,
{
    reveal_strlit("; ");
    assert("; "@ =~= seq![';', ' ']);
    crate::text::few_parts_are_joined(message, "; "@);
    crate::text::joined_lists_are_joined(a, b, "; "@);
}

/// A result is seen as what it is, with all its texts.
pub proof fn results_are_seen_as_they_are(result: CompileResult)
    ensures
        result@ is Success <==> result is Success,
        result@ is Failure <==> result is Failure,
        result@ is Errored <==> result is Errored,
        result is Failure ==> result@->Failure_0.len() == result->Failure_0@.len() && forall|i: int|
            0 <= i < result->Failure_0@.len() ==> #[trigger] result@->Failure_0[i]
                == result->Failure_0@[i]@,
        result is Errored ==> result@->Errored_0 == result->Errored_0@,
{
}

/// Each result is seen with its own name, author and outcome, in its place.
pub proof fn outcomes_are_one_for_one(results: Seq<(String, String, CompileResult)>)
    ensures
        outcomes_of(results).len() == results.len(),
        forall|i: int|
            0 <= i < results.len() ==> {
                &&& (#[trigger] outcomes_of(results)[i]).0 == results[i].0@
                &&& outcomes_of(results)[i].1 == results[i].1@
                &&& outcomes_of(results)[i].2 == results[i].2@
            },
{
}

/// Each path is listed, once and in its place, by the text that stands for it.
pub proof fn every_path_is_listed(paths: Seq<FilePath>)
    ensures
        path_texts(paths).len() == paths.len(),
        forall|i: int| 0 <= i < paths.len() ==> #[trigger] path_texts(paths)[i] == paths[i].text@,
{
}

/// `run` gets one request for each plugin, in order, and each request lists every reference and
/// every symbol, in order and none left out.
pub proof fn requests_list_every_reference<
    E,
    K,
    N: for<'r> FnOnce(K, &Vec<CompileRequest<'r>>, usize) -> Result<Vec<CompileResult>, E>,
>(
    run: N,
    receipt: K,
    plugins: Seq<Plugin>,
    references: Seq<FilePath>,
    preprocessor: Seq<Seq<char>>,
    jobs: usize,
    answer: Result<Vec<CompileResult>, E>,
)
    requires
        ran(run, receipt, plugins, references, preprocessor, jobs, answer),
    ensures
        exists|requests: Vec<CompileRequest<'_>>|
            {
                &&& #[trigger] call_ensures(run, (receipt, &requests, jobs), answer)
                &&& requests@.len() == plugins.len()
                &&& forall|i: int|
                    0 <= i < plugins.len() ==> {
                        &&& (#[trigger] requests@[i]).plugin@ == plugins[i].path.text@
                        &&& requests@[i].references@.len() == references.len()
                        &&& requests@[i].preprocessor@.len() == preprocessor.len()
                    }
                &&& forall|i: int, j: int|
                    0 <= i < plugins.len() && 0 <= j < references.len() ==> (
                    #[trigger] requests@[i].references@[j])@ == references[j].text@
                &&& forall|i: int, j: int|
                    0 <= i < plugins.len() && 0 <= j < preprocessor.len() ==> (
                    #[trigger] requests@[i].preprocessor@[j])@ == preprocessor[j]
            },
{
    let requests = choose|requests: Vec<CompileRequest<'_>>|
        {
            &&& requests_for(requests@, plugins, path_texts(references), preprocessor)
            &&& #[trigger] call_ensures(run, (receipt, &requests, jobs), answer)
        };
    every_path_is_listed(references);
    assert forall|i: int| 0 <= i < plugins.len() implies {
        &&& (#[trigger] requests@[i]).plugin@ == plugins[i].path.text@
        &&& requests@[i].references@.len() == references.len()
        &&& requests@[i].preprocessor@.len() == preprocessor.len()
    } by {
        crate::text::texts_are_one_for_one(requests@[i].references@);
        crate::text::texts_are_one_for_one(requests@[i].preprocessor@);
    }
    assert forall|i: int, j: int| 0 <= i < plugins.len() && 0 <= j < references.len() implies (
    #[trigger] requests@[i].references@[j])@ == references[j].text@ by {
        assert(texts(requests@[i].references@)[j] == requests@[i].references@[j]@);
        assert(path_texts(references)[j] == references[j].text@);
    }
    assert forall|i: int, j: int| 0 <= i < plugins.len() && 0 <= j < preprocessor.len() implies (
    #[trigger] requests@[i].preprocessor@[j])@ == preprocessor[j] by {
        assert(texts(requests@[i].preprocessor@)[j] == requests@[i].preprocessor@[j]@);
    }
}

/// The compiler reads all that was asked: the C string that it gets, decoded and parsed, is an
/// object of three members, the path of the plugin, a list with every reference and a list with
/// every symbol, each in its place.
pub proof fn every_item_of_a_request_is_read_back(request: &CompileRequest<'_>, i: int)
    requires
        0 <= i,
    ensures
        ({
            let read = parsed(decode_utf8(encode_utf8(request.json())));
            let members = read->Some_0->Object_0;
            &&& read is Some
            &&& read->Some_0 is Object
            &&& members.len() == 3
            &&& members[0] == ("plugin"@, Json::Text(request.plugin@))
            &&& members[1].0 == "references"@ && members[1].1 is List
            &&& members[1].1->List_0.len() == request.references@.len()
            &&& i < request.references@.len() ==> members[1].1->List_0[i] == Json::Text(
                request.references@[i]@,
            )
            &&& members[2].0 == "preprocessor"@ && members[2].1 is List
            &&& members[2].1->List_0.len() == request.preprocessor@.len()
            &&& i < request.preprocessor@.len() ==> members[2].1->List_0[i] == Json::Text(
                request.preprocessor@[i]@,
            )
        }),
{
    requests_are_read_back(request);
    requests_are_c_strings(request);
    encode_utf8_decode_utf8(request.json());
    assert(c_string_of(request.json()).drop_last() =~= encode_utf8(request.json()));
}

/// At most eight compilations run at a time, as many as there can be up to that, and one where
/// that is unknown.
pub proof fn jobs_are_what_there_can_be_up_to_eight(n: usize)
    ensures
        jobs_for(Some(n)) <= 8 && jobs_for(Some(n)) <= n,
        jobs_for(Some(n)) == 8 || jobs_for(Some(n)) == n,
        jobs_for(None) == 1,
{
}

} // verus!
