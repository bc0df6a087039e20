//! The exchange with the LLMLingua worker (a Python process): each message
//! is a frame, a big-endian `u32` length then that many bytes of JSON; the
//! requests it is sent, and how its answers are read.
use vstd::prelude::*;

use crate::config::PromptCompressionConfig;
use crate::doc::{entry_models, lemma_entry_models_push, lemma_key_pos, member, str_value, Number, NumberModel, Tree, Value};
use crate::error::{ErrorModel, OaasError};
use crate::text::{debug_list, debug_strings, decimal, fmt_u64, owned, views};

verus! {

/// The largest answer the worker may send, in bytes (64 MiB).
pub const MAX_ANSWER_LEN: u32 = 67108864;

/// The four big-endian bytes of `n`.
pub open spec fn be_bytes(n: u32) -> Seq<u8> {
    seq![(n >> 24u32) as u8, ((n >> 16u32) & 0xffu32) as u8, ((n >> 8u32) & 0xffu32) as u8, (n & 0xffu32) as u8]
}

/// The number that four big-endian bytes denote.
pub open spec fn be_value(b0: u8, b1: u8, b2: u8, b3: u8) -> u32 {
    ((b0 as u32) << 24u32) | ((b1 as u32) << 16u32) | ((b2 as u32) << 8u32) | (b3 as u32)
}

/// The frame that carries `payload`: its length in four big-endian bytes,
/// then the payload.
pub open spec fn frame_of(payload: Seq<u8>) -> Seq<u8> {
    be_bytes(payload.len() as u32) + payload
}

/// The frame that carries `payload`; an error when the payload is longer
/// than a `u32` can say.
pub fn encode_frame(payload: &Vec<u8>) -> (r: Result<Vec<u8>, OaasError>)
    ensures
        payload@.len() <= u32::MAX ==> (r matches Ok(f) && f@ == frame_of(payload@)),
        payload@.len() > u32::MAX ==> (r matches Err(e) && e.model() == ErrorModel::Backend(
            "requête LLMLingua trop grande"@,
        )),
{
    if payload.len() as u64 > 4294967295u64 {
        return Err(OaasError::backend("requête LLMLingua trop grande"));
    }
    let n = payload.len() as u32;
    let mut out: Vec<u8> = Vec::new();
    out.push((n >> 24u32) as u8);
    out.push(((n >> 16u32) & 0xffu32) as u8);
    out.push(((n >> 8u32) & 0xffu32) as u8);
    out.push((n & 0xffu32) as u8);
    let mut i: usize = 0;
    while i < payload.len()
        invariant
            0 <= i <= payload.len(),
            n == payload@.len(),
            out@ == be_bytes(n) + payload@.take(i as int),
        decreases payload.len() - i,
    {
        out.push(payload[i]);
        assert(payload@.take(i + 1) =~= payload@.take(i as int).push(payload@[i as int]));
        assert(out@ =~= be_bytes(n) + payload@.take(i + 1));
        i += 1;
    }
    assert(payload@.take(i as int) =~= payload@);
    Ok(out)
}

/// The length a frame header announces.
pub fn frame_length(b0: u8, b1: u8, b2: u8, b3: u8) -> (n: u32)
    ensures
        n == be_value(b0, b1, b2, b3),
{
    ((b0 as u32) << 24u32) | ((b1 as u32) << 16u32) | ((b2 as u32) << 8u32) | (b3 as u32)
}

/// The length of an answer frame, once checked against [`MAX_ANSWER_LEN`].
pub fn checked_answer_length(n: u32) -> (r: Result<u32, OaasError>)
    ensures
        n <= MAX_ANSWER_LEN ==> r == Ok::<u32, OaasError>(n),
        n > MAX_ANSWER_LEN ==> (r matches Err(e) && e.model() == ErrorModel::Backend(
            "IPC LLMLingua: réponse LLMLingua trop grande"@,
        )),
{
    if n > MAX_ANSWER_LEN {
        Err(OaasError::backend("IPC LLMLingua: réponse LLMLingua trop grande"))
    } else {
        Ok(n)
    }
}

/// A frame header gives back the length it was made from.
pub proof fn law_length_roundtrip(n: u32)
    ensures
        be_value(be_bytes(n)[0], be_bytes(n)[1], be_bytes(n)[2], be_bytes(n)[3]) == n,
{
    let b = be_bytes(n);
    assert(b[0] == (n >> 24u32) as u8);
    assert(b[1] == ((n >> 16u32) & 0xffu32) as u8);
    assert(b[2] == ((n >> 8u32) & 0xffu32) as u8);
    assert(b[3] == (n & 0xffu32) as u8);
    assert(((((n >> 24u32) as u8) as u32) << 24u32) | (((((n >> 16u32) & 0xffu32) as u8) as u32) << 16u32) | (
    ((((n >> 8u32) & 0xffu32) as u8) as u32) << 8u32) | (((n & 0xffu32) as u8) as u32) == n) by (bit_vector);
}

/// Reading a frame gives back its payload: the header announces the
/// payload's length, and the payload follows it.
pub proof fn law_frame_roundtrip(payload: Seq<u8>)
    requires
        payload.len() <= u32::MAX,
    ensures
        frame_of(payload).len() == 4 + payload.len(),
        be_value(frame_of(payload)[0], frame_of(payload)[1], frame_of(payload)[2], frame_of(payload)[3])
            == payload.len(),
        frame_of(payload).skip(4) == payload,
{
    law_length_roundtrip(payload.len() as u32);
    assert(frame_of(payload).skip(4) =~= payload);
}

/// The request that starts the worker:
/// `{"v": 1, "op": "init", "model_name", "use_llmlingua2", "device_map"}`.
pub open spec fn init_request_of(pc: PromptCompressionConfig) -> Tree {
    Tree::Mapping(
        seq![
            (Tree::Str("v"@), Tree::Num(NumberModel::PosInt(1))),
            (Tree::Str("op"@), Tree::Str("init"@)),
            (Tree::Str("model_name"@), Tree::Str(pc.model_name@)),
            (Tree::Str("use_llmlingua2"@), Tree::Bool(pc.use_llmlingua2)),
            (Tree::Str("device_map"@), Tree::Str(pc.device_map@)),
        ],
    )
}

/// The init request carries the configuration: its `model_name`,
/// `use_llmlingua2` and `device_map` entries are the configured ones, with
/// `"v": 1` and `"op": "init"`.
pub proof fn law_init_request_carries_config(pc: PromptCompressionConfig)
    ensures
        member(init_request_of(pc), "v"@) == Some(Tree::Num(NumberModel::PosInt(1))),
        member(init_request_of(pc), "op"@) == Some(Tree::Str("init"@)),
        member(init_request_of(pc), "model_name"@) == Some(Tree::Str(pc.model_name@)),
        member(init_request_of(pc), "use_llmlingua2"@) == Some(Tree::Bool(pc.use_llmlingua2)),
        member(init_request_of(pc), "device_map"@) == Some(Tree::Str(pc.device_map@)),
{
    let m = init_request_of(pc)->Mapping_0;
    reveal_strlit("v");
    reveal_strlit("op");
    reveal_strlit("model_name");
    reveal_strlit("use_llmlingua2");
    reveal_strlit("device_map");
    assert("v"@.len() == 1 && "op"@.len() == 2 && "model_name"@.len() == 10);
    assert("use_llmlingua2"@.len() == 14 && "device_map"@.len() == 10);
    assert("model_name"@[0] != "device_map"@[0]);
    assert("v"@ != "op"@ && "v"@ != "model_name"@ && "op"@ != "model_name"@);
    assert("v"@ != "use_llmlingua2"@ && "op"@ != "use_llmlingua2"@ && "model_name"@ != "use_llmlingua2"@);
    assert("v"@ != "device_map"@ && "op"@ != "device_map"@ && "model_name"@ != "device_map"@);
    assert("use_llmlingua2"@ != "device_map"@);
    lemma_key_pos(m, "v"@, 0);
    lemma_key_pos(m, "op"@, 1);
    lemma_key_pos(m, "model_name"@, 2);
    lemma_key_pos(m, "use_llmlingua2"@, 3);
    lemma_key_pos(m, "device_map"@, 4);
}

/// The request that starts the worker.
pub fn init_request(pc: &PromptCompressionConfig) -> (v: Value)
    ensures
        v.model() == init_request_of(*pc),
{
    let mut m: Vec<(Value, Value)> = Vec::new();
    let e0 = (str_value("v"), Value::Num(Number::PosInt(1)));
    let e1 = (str_value("op"), str_value("init"));
    let e2 = (str_value("model_name"), str_value(pc.model_name.as_str()));
    let e3 = (str_value("use_llmlingua2"), Value::Bool(pc.use_llmlingua2));
    let e4 = (str_value("device_map"), str_value(pc.device_map.as_str()));
    proof {
        lemma_entry_models_push(m@, e0);
        lemma_entry_models_push(m@.push(e0), e1);
        lemma_entry_models_push(m@.push(e0).push(e1), e2);
        lemma_entry_models_push(m@.push(e0).push(e1).push(e2), e3);
        lemma_entry_models_push(m@.push(e0).push(e1).push(e2).push(e3), e4);
    }
    m.push(e0);
    m.push(e1);
    m.push(e2);
    m.push(e3);
    m.push(e4);
    assert(entry_models(m@) =~= seq![
        (Tree::Str("v"@), Tree::Num(NumberModel::PosInt(1))),
        (Tree::Str("op"@), Tree::Str("init"@)),
        (Tree::Str("model_name"@), Tree::Str(pc.model_name@)),
        (Tree::Str("use_llmlingua2"@), Tree::Bool(pc.use_llmlingua2)),
        (Tree::Str("device_map"@), Tree::Str(pc.device_map@)),
    ]);
    Value::Mapping(m)
}

/// The request that compresses a chat body:
/// `{"v": 1, "op": "compress", "rate", "target_token", "body"}`.
pub open spec fn compress_request_of(rate: NumberModel, target_token: u32, body: Tree) -> Tree {
    Tree::Mapping(
        seq![
            (Tree::Str("v"@), Tree::Num(NumberModel::PosInt(1))),
            (Tree::Str("op"@), Tree::Str("compress"@)),
            (Tree::Str("rate"@), Tree::Num(rate)),
            (Tree::Str("target_token"@), Tree::Num(NumberModel::PosInt(target_token as u64))),
            (Tree::Str("body"@), body),
        ],
    )
}

/// The compress request carries its inputs: the `rate`, the
/// `target_token` count and the chat `body`, with `"v": 1` and
/// `"op": "compress"`.
pub proof fn law_compress_request_carries_inputs(rate: NumberModel, target_token: u32, body: Tree)
    ensures
        member(compress_request_of(rate, target_token, body), "v"@) == Some(Tree::Num(NumberModel::PosInt(1))),
        member(compress_request_of(rate, target_token, body), "op"@) == Some(Tree::Str("compress"@)),
        member(compress_request_of(rate, target_token, body), "rate"@) == Some(Tree::Num(rate)),
        member(compress_request_of(rate, target_token, body), "target_token"@) == Some(
            Tree::Num(NumberModel::PosInt(target_token as u64)),
        ),
        member(compress_request_of(rate, target_token, body), "body"@) == Some(body),
{
    let m = compress_request_of(rate, target_token, body)->Mapping_0;
    reveal_strlit("v");
    reveal_strlit("op");
    reveal_strlit("rate");
    reveal_strlit("target_token");
    reveal_strlit("body");
    assert("v"@.len() == 1 && "op"@.len() == 2 && "rate"@.len() == 4);
    assert("target_token"@.len() == 12 && "body"@.len() == 4);
    assert("rate"@[0] != "body"@[0]);
    assert("v"@ != "op"@ && "v"@ != "rate"@ && "op"@ != "rate"@);
    assert("v"@ != "target_token"@ && "op"@ != "target_token"@ && "rate"@ != "target_token"@);
    assert("v"@ != "body"@ && "op"@ != "body"@ && "rate"@ != "body"@ && "target_token"@ != "body"@);
    lemma_key_pos(m, "v"@, 0);
    lemma_key_pos(m, "op"@, 1);
    lemma_key_pos(m, "rate"@, 2);
    lemma_key_pos(m, "target_token"@, 3);
    lemma_key_pos(m, "body"@, 4);
}

/// The request that compresses chat body `body` at `rate` (the configured
/// rate, as a JSON number) with the configured target token count.
pub fn compress_request(rate: Number, target_token: u32, body: Value) -> (v: Value)
    ensures
        v.model() == compress_request_of(rate.model(), target_token, body.model()),
{
    let ghost bm = body.model();
    let ghost rm = rate.model();
    let mut m: Vec<(Value, Value)> = Vec::new();
    let e0 = (str_value("v"), Value::Num(Number::PosInt(1)));
    let e1 = (str_value("op"), str_value("compress"));
    let e2 = (str_value("rate"), Value::Num(rate));
    let e3 = (str_value("target_token"), Value::Num(Number::PosInt(target_token as u64)));
    let e4 = (str_value("body"), body);
    proof {
        lemma_entry_models_push(m@, e0);
        lemma_entry_models_push(m@.push(e0), e1);
        lemma_entry_models_push(m@.push(e0).push(e1), e2);
        lemma_entry_models_push(m@.push(e0).push(e1).push(e2), e3);
        lemma_entry_models_push(m@.push(e0).push(e1).push(e2).push(e3), e4);
    }
    m.push(e0);
    m.push(e1);
    m.push(e2);
    m.push(e3);
    m.push(e4);
    assert(entry_models(m@) =~= seq![
        (Tree::Str("v"@), Tree::Num(NumberModel::PosInt(1))),
        (Tree::Str("op"@), Tree::Str("compress"@)),
        (Tree::Str("rate"@), Tree::Num(rm)),
        (Tree::Str("target_token"@), Tree::Num(NumberModel::PosInt(target_token as u64))),
        (Tree::Str("body"@), bm),
    ]);
    Value::Mapping(m)
}

/// The worker's answer: whether it succeeded, its error message, and the
/// compressed body.
#[derive(Debug, PartialEq, Eq)]
pub struct WorkerEnvelope {
    pub ok: bool,
    pub error: Option<String>,
    pub body: Option<Value>,
}

/// The worker accepted `init`, or the error it gave (a default message when
/// it gave none).
pub fn init_outcome(env: &WorkerEnvelope) -> (r: Result<(), OaasError>)
    ensures
        env.ok ==> r is Ok,
        !env.ok ==> (r matches Err(e) && e.model() == ErrorModel::Backend(
            match env.error {
                Some(m) => m@,
                None => "init LLMLingua refusé"@,
            },
        )),
{
    if env.ok {
        Ok(())
    } else {
        match &env.error {
            Some(m) => Err(OaasError::Backend(owned(m.as_str()))),
            None => Err(OaasError::backend("init LLMLingua refusé")),
        }
    }
}

/// The compressed body of a `compress` answer, or the error: the worker's
/// (a default message when it gave none), or a missing body.
pub fn compress_outcome(env: WorkerEnvelope) -> (r: Result<Value, OaasError>)
    ensures
        !env.ok ==> (r matches Err(e) && e.model() == ErrorModel::Backend(
            match env.error {
                Some(m) => m@,
                None => "compression refusée"@,
            },
        )),
        env.ok ==> match env.body {
            Some(b) => r == Ok::<Value, OaasError>(b),
            None => r matches Err(e) && e.model() == ErrorModel::Backend("réponse compress sans « body »"@),
        },
{
    if !env.ok {
        return match env.error {
            Some(m) => Err(OaasError::Backend(m)),
            None => Err(OaasError::backend("compression refusée")),
        };
    }
    match env.body {
        Some(b) => Ok(b),
        None => Err(OaasError::backend("réponse compress sans « body »")),
    }
}

/// How long one exchange may take, in seconds: the configured timeout, at
/// least one second.
pub fn exchange_deadline_secs(timeout_secs: u64) -> (r: u64)
    ensures
        r == (if timeout_secs < 1 {
            1
        } else {
            timeout_secs
        }),
{
    if timeout_secs < 1 {
        1
    } else {
        timeout_secs
    }
}

/// The error of an exchange that took longer than `timeout_secs`.
pub fn exchange_timeout_error(timeout_secs: u64) -> (e: OaasError)
    ensures
        e.model() == ErrorModel::Backend(
            "timeout LLMLingua après "@ + decimal(timeout_secs as nat)
                + "s — augmente prompt_compression.timeout_secs ou vérifie device_map / GPU"@,
        ),
{
    let t = fmt_u64(timeout_secs);
    OaasError::Backend(
        owned("timeout LLMLingua après ").concat(t.as_str()).concat(
            "s — augmente prompt_compression.timeout_secs ou vérifie device_map / GPU",
        ),
    )
}

/// The program and the arguments that start the worker: the compression
/// command; an error when it is empty.
pub fn worker_command(pc: &PromptCompressionConfig) -> (r: Result<(String, Vec<String>), OaasError>)
    ensures
        pc.command@.len() == 0 ==> (r matches Err(e) && e.model() == ErrorModel::Config(
            "prompt_compression.command ne peut pas être vide lorsque la compression est activée"@,
        )),
        pc.command@.len() > 0 ==> (r matches Ok(c) && c.0@ == pc.command@[0]@ && views(c.1@) == views(
            pc.command@.skip(1),
        )),
{
    if pc.command.len() == 0 {
        return Err(
            OaasError::config("prompt_compression.command ne peut pas être vide lorsque la compression est activée"),
        );
    }
    let mut args: Vec<String> = Vec::new();
    let mut i: usize = 1;
    while i < pc.command.len()
        invariant
            1 <= i <= pc.command.len(),
            views(args@) == views(pc.command@.subrange(1, i as int)),
        decreases pc.command.len() - i,
    {
        let ghost before = args@;
        args.push(owned(pc.command[i].as_str()));
        assert(views(args@) =~= views(before).push(pc.command@[i as int]@));
        assert(views(pc.command@.subrange(1, i + 1)) =~= views(pc.command@.subrange(1, i as int)).push(
            pc.command@[i as int]@,
        ));
        i += 1;
    }
    assert(pc.command@.subrange(1, i as int) =~= pc.command@.skip(1));
    Ok((owned(pc.command[0].as_str()), args))
}

/// The error when the worker `command` could not be started (`reason`: the
/// system's message).
pub fn worker_spawn_error(command: &Vec<String>, reason: &str) -> (e: OaasError)
    ensures
        e.model() == ErrorModel::Backend(
            "impossible de lancer le worker LLMLingua "@ + debug_list(views(command@)) + ": "@ + reason@,
        ),
{
    let listing = debug_strings(command);
    OaasError::Backend(owned("impossible de lancer le worker LLMLingua ").concat(listing.as_str()).concat(": ").concat(reason))
}

} // verus!
