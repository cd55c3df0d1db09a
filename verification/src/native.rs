use std::collections::HashMap;
use vstd::prelude::*;

use crate::collect::{collect_all, lemma_collect_all_ok, lemma_collect_prefix_err, lemma_collect_step, lemma_take_all};
use crate::json::{spec_as_str, spec_as_u64, spec_get, JsonValue};
use crate::json::text_eq;

verus! {

broadcast use vstd::std_specs::hash::group_hash_axioms;

/// A byte transformation that the host offers to scripts.
pub enum NativeOp {
    Invert,
    GrayscaleRgba,
    Xor,
    Noop,
}

/// The operation a name stands for.
pub open spec fn spec_native_op(op: Seq<char>) -> Option<NativeOp> {
    if op == "invert"@ {
        Some(NativeOp::Invert)
    } else if op == "grayscale_rgba"@ {
        Some(NativeOp::GrayscaleRgba)
    } else if op == "xor"@ {
        Some(NativeOp::Xor)
    } else if op == "noop"@ {
        Some(NativeOp::Noop)
    } else {
        None
    }
}

/// The operation a name stands for.
pub fn parse_native_op(op: &str) -> (r: Option<NativeOp>)
    ensures
        r == spec_native_op(op@),
{
    if text_eq(op, "invert") {
        Some(NativeOp::Invert)
    } else if text_eq(op, "grayscale_rgba") {
        Some(NativeOp::GrayscaleRgba)
    } else if text_eq(op, "xor") {
        Some(NativeOp::Xor)
    } else if text_eq(op, "noop") {
        Some(NativeOp::Noop)
    } else {
        None
    }
}

/// Every byte replaced by its complement.
pub open spec fn spec_invert(a: Seq<u8>) -> Seq<u8> {
    Seq::new(a.len(), |i: int| (255 - a[i]) as u8)
}

/// The bytes of `a` combined with those of `e` by exclusive or.
pub open spec fn spec_xor(a: Seq<u8>, e: Seq<u8>) -> Seq<u8> {
    Seq::new(a.len(), |i: int| a[i] ^ e[i])
}

/// What a luminance function needs for the grayscale operation: it accepts
/// every colour and gives one answer for each.
pub open spec fn luma_ok<F: Fn(u8, u8, u8) -> u8>(luma: F) -> bool {
    &&& forall|r: u8, g: u8, b: u8| call_requires(luma, (r, g, b))
    &&& forall|r: u8, g: u8, b: u8, y1: u8, y2: u8|
        call_ensures(luma, (r, g, b), y1) && call_ensures(luma, (r, g, b), y2) ==> y1 == y2
}

/// The luminance that `luma` gives a colour.
pub open spec fn luma_value<F: Fn(u8, u8, u8) -> u8>(luma: F, r: u8, g: u8, b: u8) -> u8 {
    choose|y: u8| call_ensures(luma, (r, g, b), y)
}

/// Every whole RGBA pixel of `a` with its red, green and blue set to the
/// pixel's luminance; alpha and a trailing partial pixel stay.
pub open spec fn spec_grayscale<F: Fn(u8, u8, u8) -> u8>(luma: F, a: Seq<u8>) -> Seq<u8> {
    Seq::new(
        a.len(),
        |i: int|
            if i < a.len() - a.len() % 4 && i % 4 < 3 {
                luma_value(luma, a[i - i % 4], a[i - i % 4 + 1], a[i - i % 4 + 2])
            } else {
                a[i]
            },
    )
}

/// The error message for an operation name that the host does not offer.
pub open spec fn unknown_op_message(op: Seq<char>) -> Seq<char> {
    "不支持的 native op: "@ + op
}

/// The result of applying the named operation to `a`, with the second input
/// `extra` for `xor`.
pub open spec fn spec_apply<F: Fn(u8, u8, u8) -> u8>(
    luma: F,
    op: Seq<char>,
    a: Seq<u8>,
    extra: Option<Seq<u8>>,
) -> Result<Seq<u8>, Seq<char>> {
    match spec_native_op(op) {
        Some(NativeOp::Invert) => Ok(spec_invert(a)),
        Some(NativeOp::GrayscaleRgba) => Ok(spec_grayscale(luma, a)),
        Some(NativeOp::Xor) => match extra {
            None => Err("xor 需要第二个输入参数"@),
            Some(e) => if e.len() != a.len() {
                Err("xor 两个输入长度必须一致"@)
            } else {
                Ok(spec_xor(a, e))
            },
        },
        Some(NativeOp::Noop) => Ok(a),
        None => Err(unknown_op_message(op)),
    }
}

/// The mathematical value of a result that holds bytes.
pub open spec fn bytes_result_view(r: Result<Vec<u8>, String>) -> Result<Seq<u8>, Seq<char>> {
    match r {
        Ok(v) => Ok(v@),
        Err(e) => Err(e@),
    }
}

/// The mathematical value of an optional byte buffer.
pub open spec fn opt_bytes_view(o: Option<Vec<u8>>) -> Option<Seq<u8>> {
    match o {
        Some(v) => Some(v@),
        None => None,
    }
}

fn invert_bytes(bytes: Vec<u8>) -> (r: Vec<u8>)
    ensures
        r@ == spec_invert(bytes@),
{
    let mut bytes = bytes;
    let ghost a = bytes@;
    let n = bytes.len();
    for i in 0..n
        invariant
            n == a.len(),
            bytes@.len() == n,
            forall|j: int| 0 <= j < i ==> bytes@[j] == (255 - a[j]) as u8,
            forall|j: int| i <= j < n ==> bytes@[j] == a[j],
    {
        let b = bytes[i];
        bytes.set(i, 255 - b);
    }
    assert(bytes@ =~= spec_invert(a));
    bytes
}

fn xor_bytes(bytes: Vec<u8>, rhs: &Vec<u8>) -> (r: Vec<u8>)
    requires
        rhs@.len() == bytes@.len(),
    ensures
        r@ == spec_xor(bytes@, rhs@),
{
    let mut bytes = bytes;
    let ghost a = bytes@;
    let n = bytes.len();
    for i in 0..n
        invariant
            n == a.len(),
            rhs@.len() == n,
            bytes@.len() == n,
            forall|j: int| 0 <= j < i ==> bytes@[j] == a[j] ^ rhs@[j],
            forall|j: int| i <= j < n ==> bytes@[j] == a[j],
    {
        let b = bytes[i] ^ rhs[i];
        bytes.set(i, b);
    }
    assert(bytes@ =~= spec_xor(a, rhs@));
    bytes
}

fn grayscale_bytes<F: Fn(u8, u8, u8) -> u8>(bytes: Vec<u8>, luma: &F) -> (r: Vec<u8>)
    requires
        luma_ok(*luma),
    ensures
        r@ == spec_grayscale(*luma, bytes@),
{
    let mut bytes = bytes;
    let ghost a = bytes@;
    let n = bytes.len();
    let mut i: usize = 0;
    while n - i >= 4
        invariant
            n == a.len(),
            bytes@.len() == n,
            i % 4 == 0,
            i <= n,
            luma_ok(*luma),
            forall|j: int| 0 <= j < i ==> bytes@[j] == spec_grayscale(*luma, a)[j],
            forall|j: int| i <= j < n ==> bytes@[j] == a[j],
        decreases n - i,
    {
        let y = luma(bytes[i], bytes[i + 1], bytes[i + 2]);
        proof {
            assert(luma_value(*luma, a[i as int], a[i + 1], a[i + 2]) == y);
        }
        bytes.set(i, y);
        bytes.set(i + 1, y);
        bytes.set(i + 2, y);
        proof {
            assert forall|j: int| 0 <= j < i + 4 implies bytes@[j] == spec_grayscale(*luma, a)[j] by {
                if j >= i {
                    assert(j - j % 4 == i);
                }
            }
        }
        i = i + 4;
    }
    proof {
        assert(i == n - n % 4);
        assert(bytes@ =~= spec_grayscale(*luma, a));
    }
    bytes
}

/// Applies the named operation to `bytes`, with the second input `extra`
/// for `xor`; `luma` gives the luminance of a colour for `grayscale_rgba`.
pub fn native_apply_op<F: Fn(u8, u8, u8) -> u8>(
    op: &str,
    bytes: Vec<u8>,
    extra: Option<Vec<u8>>,
    luma: &F,
) -> (r: Result<Vec<u8>, String>)
    requires
        luma_ok(*luma),
    ensures
        bytes_result_view(r) == spec_apply(*luma, op@, bytes@, opt_bytes_view(extra)),
{
    match parse_native_op(op) {
        Some(NativeOp::Invert) => Ok(invert_bytes(bytes)),
        Some(NativeOp::GrayscaleRgba) => Ok(grayscale_bytes(bytes, luma)),
        Some(NativeOp::Xor) => {
            match extra {
                None => Err("xor 需要第二个输入参数".to_string()),
                Some(rhs) => {
                    if rhs.len() != bytes.len() {
                        Err("xor 两个输入长度必须一致".to_string())
                    } else {
                        Ok(xor_bytes(bytes, &rhs))
                    }
                },
            }
        },
        Some(NativeOp::Noop) => Ok(bytes),
        None => {
            let mut message = "不支持的 native op: ".to_string();
            message.append(op);
            Err(message)
        },
    }
}

/// The id that follows `id`; the counter wraps around at the top.
pub open spec fn next_buffer_id(id: u64) -> u64 {
    if id == u64::MAX {
        0
    } else {
        (id + 1) as u64
    }
}

/// The byte buffers that scripts hand to the host, by id, and the id that
/// the next stored buffer gets.
pub struct NativePool {
    next_id: u64,
    buffers: HashMap<u64, Vec<u8>>,
    wrapped: Ghost<bool>,
}

impl View for NativePool {
    type V = Map<u64, Seq<u8>>;

    closed spec fn view(&self) -> Map<u64, Seq<u8>> {
        self.buffers@.map_values(|v: Vec<u8>| v@)
    }
}

impl NativePool {
    /// The id that the next stored buffer gets.
    pub closed spec fn next_id(&self) -> u64 {
        self.next_id
    }

    /// Whether the id counter has gone past `u64::MAX` and started again at 0.
    pub closed spec fn wrapped(&self) -> bool {
        self.wrapped@
    }

    /// Until the id counter wraps around, every stored id is below the next
    /// id, so the next id is free.
    pub closed spec fn wf(&self) -> bool {
        !self.wrapped@ ==> forall|k: u64| self.buffers@.contains_key(k) ==> k < self.next_id
    }

    /// An empty pool whose first id is 1.
    pub fn new() -> (p: Self)
        ensures
            p@ == Map::<u64, Seq<u8>>::empty(),
            p.next_id() == 1,
            p.wf(),
            !p.wrapped(),
    {
        let p = NativePool { next_id: 1, buffers: HashMap::new(), wrapped: Ghost(false) };
        assert(p@ =~= Map::<u64, Seq<u8>>::empty());
        p
    }

    /// The bytes stored under `id`, left in place.
    pub fn get(&self, id: u64) -> (r: Option<&Vec<u8>>)
        ensures
            match r {
                Some(v) => self@.contains_key(id) && v@ == self@[id],
                None => !self@.contains_key(id),
            },
    {
        self.buffers.get(&id)
    }
}

/// Stores `bytes` under a fresh id and returns the id.
pub fn native_buffer_put_raw(pool: &mut NativePool, bytes: Vec<u8>) -> (id: u64)
    requires
        old(pool).wf(),
    ensures
        id == old(pool).next_id(),
        final(pool).next_id() == next_buffer_id(id),
        final(pool)@ == old(pool)@.insert(id, bytes@),
        final(pool).wf(),
        final(pool).wrapped() == (old(pool).wrapped() || id == u64::MAX),
        !old(pool).wrapped() ==> !old(pool)@.contains_key(id),
{
    let id = pool.next_id;
    let ghost b = bytes@;
    let ghost was = pool.wrapped@;
    pool.next_id = pool.next_id.wrapping_add(1);
    pool.buffers.insert(id, bytes);
    proof {
        pool.wrapped@ = was || id == u64::MAX;
    }
    assert(pool@ =~= old(pool)@.insert(id, b));
    id
}

/// Takes the bytes stored under `id` out of the pool.
pub fn native_buffer_take_raw(pool: &mut NativePool, id: u64) -> (r: Option<Vec<u8>>)
    requires
        old(pool).wf(),
    ensures
        final(pool).wf(),
        final(pool).wrapped() == old(pool).wrapped(),
        opt_bytes_view(r) == old(pool)@.get(id),
        final(pool)@ == old(pool)@.remove(id),
        final(pool).next_id() == old(pool).next_id(),
{
    let r = pool.buffers.remove(&id);
    assert(pool@ =~= old(pool)@.remove(id));
    r
}

/// Takes the bytes stored under `id` out of the pool, or says that there
/// are none.
pub fn native_buffer_take(pool: &mut NativePool, id: u64) -> (r: Result<Vec<u8>, String>)
    requires
        old(pool).wf(),
    ensures
        final(pool).wf(),
        final(pool).wrapped() == old(pool).wrapped(),
        bytes_result_view(r) == match old(pool)@.get(id) {
            Some(b) => Ok::<Seq<u8>, Seq<char>>(b),
            None => Err("buffer id 不存在"@),
        },
        final(pool)@ == old(pool)@.remove(id),
        final(pool).next_id() == old(pool).next_id(),
{
    match native_buffer_take_raw(pool, id) {
        Some(bytes) => Ok(bytes),
        None => Err("buffer id 不存在".to_string()),
    }
}

/// Frees the buffer stored under `id`; reports whether there was one.
pub fn native_buffer_free(pool: &mut NativePool, id: u64) -> (existed: bool)
    requires
        old(pool).wf(),
    ensures
        final(pool).wf(),
        final(pool).wrapped() == old(pool).wrapped(),
        existed == old(pool)@.contains_key(id),
        final(pool)@ == old(pool)@.remove(id),
        final(pool).next_id() == old(pool).next_id(),
{
    native_buffer_take_raw(pool, id).is_some()
}

/// The byte that an element of a byte array stands for.
pub open spec fn byte_item(v: JsonValue) -> Result<u8, Seq<char>> {
    match spec_as_u64(v) {
        None => Err("字节数组元素必须是整数"@),
        Some(n) => if n > 255 {
            Err("字节数组元素必须在 0-255 范围"@)
        } else {
            Ok(n as u8)
        },
    }
}

/// The bytes that a JSON array of integers in 0..=255 stands for.
pub open spec fn spec_u8_array(v: JsonValue) -> Result<Seq<u8>, Seq<char>> {
    match v {
        JsonValue::Array(items) => collect_all(items@, |x: JsonValue| byte_item(x)),
        _ => Err("数据必须是字节数组"@),
    }
}

/// Reads a JSON array of integers in 0..=255 as bytes.
pub fn parse_u8_json_value(value: &JsonValue) -> (r: Result<Vec<u8>, String>)
    ensures
        bytes_result_view(r) == spec_u8_array(*value),
{
    let items = match value {
        JsonValue::Array(items) => items,
        _ => {
            return Err("数据必须是字节数组".to_string());
        },
    };
    let ghost f = |x: JsonValue| byte_item(x);
    let mut out: Vec<u8> = Vec::new();
    let n = items.len();
    for i in 0..n
        invariant
            n == items@.len(),
            spec_u8_array(*value) == collect_all(items@, f),
            forall|x: JsonValue| #[trigger] f(x) == byte_item(x),
            collect_all(items@.take(i as int), f) == Ok::<Seq<u8>, Seq<char>>(out@),
    {
        proof {
            lemma_collect_step(items@, f, i as int);
            assert(f(items@[i as int]) == byte_item(items@[i as int]));
        }
        let item = match items[i].as_u64() {
            Some(n) => n,
            None => {
                proof {
                    lemma_collect_prefix_err(items@, f, i + 1);
                }
                return Err("字节数组元素必须是整数".to_string());
            },
        };
        if item > 255 {
            proof {
                lemma_collect_prefix_err(items@, f, i + 1);
            }
            return Err("字节数组元素必须在 0-255 范围".to_string());
        }
        out.push(item as u8);
    }
    proof {
        lemma_take_all(items@);
    }
    Ok(out)
}

/// Stores the bytes of a JSON byte array under a fresh id.
pub fn native_buffer_put(pool: &mut NativePool, data: &JsonValue) -> (r: Result<u64, String>)
    requires
        old(pool).wf(),
    ensures
        final(pool).wf(),
        old(pool).wrapped() ==> final(pool).wrapped(),
        !old(pool).wrapped() ==> (r matches Ok(id) ==> !old(pool)@.contains_key(id)),
        match spec_u8_array(*data) {
            Err(e) => r == Err::<u64, String>(r->Err_0) && r->Err_0@ == e && final(pool)@ == old(pool)@
                && final(pool).next_id() == old(pool).next_id(),
            Ok(b) => r == Ok::<u64, String>(old(pool).next_id()) && final(pool)@ == old(pool)@.insert(old(pool).next_id(), b)
                && final(pool).next_id() == next_buffer_id(old(pool).next_id()),
        },
{
    let bytes = parse_u8_json_value(data)?;
    Ok(native_buffer_put_raw(pool, bytes))
}

/// Taking a buffer right after storing it gives back its bytes, and leaves
/// the pool as it was apart from the id that was used.
pub proof fn law_take_after_put(pool: Map<u64, Seq<u8>>, id: u64, bytes: Seq<u8>)
    ensures
        pool.insert(id, bytes).get(id) == Some(bytes),
        pool.insert(id, bytes).remove(id) == pool.remove(id),
{
    assert(pool.insert(id, bytes).remove(id) =~= pool.remove(id));
}

/// Two buffers stored one after the other get different ids.
pub proof fn law_consecutive_ids_differ(id: u64)
    ensures
        next_buffer_id(id) != id,
{
}

/// The id that the `k`-th allocation after `start` hands out, each one
/// taking the id that follows the one before.
pub open spec fn nth_buffer_id(start: u64, k: nat) -> u64
    decreases k,
{
    if k == 0 {
        start
    } else {
        next_buffer_id(nth_buffer_id(start, (k - 1) as nat))
    }
}

proof fn lemma_nth_buffer_id(start: u64, k: nat)
    requires
        start + k <= u64::MAX,
    ensures
        nth_buffer_id(start, k) == start + k,
    decreases k,
{
    if k > 0 {
        lemma_nth_buffer_id(start, (k - 1) as nat);
    }
}

/// Successive allocations hand out pairwise different ids as long as the
/// counter does not pass `u64::MAX`: the `k`-th id after `start` is
/// `start + k`.
pub proof fn law_successive_ids_distinct(start: u64, i: nat, j: nat)
    requires
        i < j,
        start + j <= u64::MAX,
    ensures
        nth_buffer_id(start, j) == start + j,
        nth_buffer_id(start, i) != nth_buffer_id(start, j),
{
    lemma_nth_buffer_id(start, i);
    lemma_nth_buffer_id(start, j);
}

/// The mathematical value of a result that holds an id.
pub open spec fn id_result_view(r: Result<u64, String>) -> Result<u64, Seq<char>> {
    match r {
        Ok(v) => Ok(v),
        Err(e) => Err(e@),
    }
}

/// What `native_exec` does to a pool with buffers `v` and next id `next`:
/// its result, the buffers after it, and the next id after it.
pub open spec fn spec_native_exec<F: Fn(u8, u8, u8) -> u8>(
    luma: F,
    v: Map<u64, Seq<u8>>,
    next: u64,
    op: Seq<char>,
    input_id: u64,
    extra_input_id: Option<u64>,
) -> (Result<u64, Seq<char>>, Map<u64, Seq<u8>>, u64) {
    if !v.contains_key(input_id) {
        (Err("input id 不存在"@), v, next)
    } else {
        let rest0 = v.remove(input_id);
        if extra_input_id is Some && !rest0.contains_key(extra_input_id->Some_0) {
            (Err("extra input id 不存在"@), v, next)
        } else {
            let extra = match extra_input_id {
                Some(x) => Some(rest0[x]),
                None => None,
            };
            let rest = match extra_input_id {
                Some(x) => rest0.remove(x),
                None => rest0,
            };
            match spec_apply(luma, op, v[input_id], extra) {
                Ok(out) => (Ok(next), rest.insert(next, out), next_buffer_id(next)),
                Err(e) => (Err(e), rest, next),
            }
        }
    }
}

/// Runs an operation on the buffer `input_id` (and, for `xor`, the buffer
/// `extra_input_id`) and stores the output under a fresh id. The inputs are
/// taken out of the pool; when the second input is missing the first one is
/// put back.
pub fn native_exec<F: Fn(u8, u8, u8) -> u8>(
    pool: &mut NativePool,
    op: &str,
    input_id: u64,
    extra_input_id: Option<u64>,
    luma: &F,
) -> (r: Result<u64, String>)
    requires
        old(pool).wf(),
        luma_ok(*luma),
    ensures
        final(pool).wf(),
        old(pool).wrapped() ==> final(pool).wrapped(),
        !old(pool).wrapped() ==> (r matches Ok(id) ==> !old(pool)@.contains_key(id)),
        (id_result_view(r), final(pool)@, final(pool).next_id())
            == spec_native_exec(*luma, old(pool)@, old(pool).next_id(), op@, input_id, extra_input_id),
        op@ == "xor"@ && extra_input_id is Some && extra_input_id->Some_0 != input_id && old(pool)@.contains_key(input_id)
            && old(pool)@.contains_key(extra_input_id->Some_0)
            && old(pool)@[input_id].len() == old(pool)@[extra_input_id->Some_0].len() ==> ({
            &&& r is Ok
            &&& final(pool)@[r->Ok_0].len() == old(pool)@[input_id].len()
            &&& forall|i: int| 0 <= i < old(pool)@[input_id].len()
                ==> #[trigger] final(pool)@[r->Ok_0][i] == old(pool)@[input_id][i] ^ old(pool)@[extra_input_id->Some_0][i]
        }),
{
    let ghost v = pool@;
    proof {
        if op@ == "xor"@ && extra_input_id is Some && extra_input_id->Some_0 != input_id && v.contains_key(input_id)
            && v.contains_key(extra_input_id->Some_0) && v[input_id].len() == v[extra_input_id->Some_0].len() {
            law_exec_xor_combines_both_inputs(*luma, v, pool.next_id(), input_id, extra_input_id->Some_0);
        }
    }
    let input = match native_buffer_take_raw(pool, input_id) {
        Some(bytes) => bytes,
        None => {
            return Err("input id 不存在".to_string());
        },
    };
    let extra = match extra_input_id {
        Some(extra_id) => {
            match native_buffer_take_raw(pool, extra_id) {
                Some(bytes) => Some(bytes),
                None => {
                    let ghost a = input@;
                    assert(pool@ =~= v.remove(input_id));
                    let ghost prev = pool.buffers@;
                    pool.buffers.insert(input_id, input);
                    assert(pool.buffers@ == prev.insert(input_id, input));
                    assert(pool@ =~= v.remove(input_id).insert(input_id, a));
                    assert(pool@ =~= v);
                    return Err("extra input id 不存在".to_string());
                },
            }
        },
        None => None,
    };
    let output = native_apply_op(op, input, extra, luma)?;
    Ok(native_buffer_put_raw(pool, output))
}

/// One step of an operation chain: the operation's name and the id of its
/// second input, if it has one.
pub struct ChainStep {
    pub op: String,
    pub extra_input_id: Option<u64>,
}

/// The mathematical value of a chain step.
pub open spec fn chain_step_view(s: ChainStep) -> (Seq<char>, Option<u64>) {
    (s.op@, s.extra_input_id)
}

/// The step that an element of a steps array stands for.
pub open spec fn step_item(v: JsonValue) -> Result<(Seq<char>, Option<u64>), Seq<char>> {
    match v {
        JsonValue::Object(_) => {
            let op = match spec_get(v, "op"@) {
                Some(o) => spec_as_str(o),
                None => None,
            };
            let extra = match spec_get(v, "extraInputId"@) {
                Some(e) => spec_as_u64(e),
                None => None,
            };
            match op {
                Some(name) => Ok((name, extra)),
                None => Err("steps 元素缺少 op 字段"@),
            }
        },
        _ => Err("steps 元素必须是对象"@),
    }
}

/// The steps that a JSON steps array stands for.
pub open spec fn spec_chain_steps(v: JsonValue) -> Result<Seq<(Seq<char>, Option<u64>)>, Seq<char>> {
    match v {
        JsonValue::Array(items) => collect_all(items@, |x: JsonValue| step_item(x)),
        _ => Err("steps 必须是数组"@),
    }
}

/// Reads a JSON array of `{op, extraInputId}` objects as chain steps.
pub fn parse_chain_steps(value: &JsonValue) -> (r: Result<Vec<ChainStep>, String>)
    ensures
        match r {
            Ok(steps) => spec_chain_steps(*value) == Ok::<Seq<(Seq<char>, Option<u64>)>, Seq<char>>(steps@.map_values(|s: ChainStep| chain_step_view(s))),
            Err(e) => spec_chain_steps(*value) == Err::<Seq<(Seq<char>, Option<u64>)>, Seq<char>>(e@),
        },
{
    let items = match value {
        JsonValue::Array(items) => items,
        _ => {
            return Err("steps 必须是数组".to_string());
        },
    };
    let ghost f = |x: JsonValue| step_item(x);
    let mut out: Vec<ChainStep> = Vec::new();
    let n = items.len();
    proof {
        assert(out@.map_values(|s: ChainStep| chain_step_view(s)) =~= Seq::<(Seq<char>, Option<u64>)>::empty());
        assert(collect_all(items@.take(0), f) == Ok::<Seq<(Seq<char>, Option<u64>)>, Seq<char>>(Seq::empty()));
    }
    for i in 0..n
        invariant
            n == items@.len(),
            out@.len() == i,
            spec_chain_steps(*value) == collect_all(items@, f),
            forall|x: JsonValue| #[trigger] f(x) == step_item(x),
            collect_all(items@.take(i as int), f) == Ok::<Seq<(Seq<char>, Option<u64>)>, Seq<char>>(out@.map_values(|s: ChainStep| chain_step_view(s))),
    {
        proof {
            lemma_collect_step(items@, f, i as int);
            assert(f(items@[i as int]) == step_item(items@[i as int]));
        }
        let item = &items[i];
        match item {
            JsonValue::Object(_) => {},
            _ => {
                proof {
                    lemma_collect_prefix_err(items@, f, i + 1);
                }
                return Err("steps 元素必须是对象".to_string());
            },
        }
        let op = match item.get("op") {
            Some(o) => match o.as_str() {
                Some(name) => name.clone(),
                None => {
                    proof {
                        lemma_collect_prefix_err(items@, f, i + 1);
                    }
                    return Err("steps 元素缺少 op 字段".to_string());
                },
            },
            None => {
                proof {
                    lemma_collect_prefix_err(items@, f, i + 1);
                }
                return Err("steps 元素缺少 op 字段".to_string());
            },
        };
        let extra_input_id = match item.get("extraInputId") {
            Some(e) => e.as_u64(),
            None => None,
        };
        let ghost before = out@;
        out.push(ChainStep { op, extra_input_id });
        proof {
            assert(out@.map_values(|s: ChainStep| chain_step_view(s)) =~= before.map_values(|s: ChainStep| chain_step_view(s)).push(chain_step_view(out@[i as int])));
        }
    }
    proof {
        lemma_take_all(items@);
    }
    Ok(out)
}

/// What running the remaining `steps` of a chain does, starting from the
/// bytes `cur` and the buffers `v`: the final bytes or the first failure,
/// and the buffers afterwards. Every second input is taken out of the pool.
pub open spec fn spec_run_chain<F: Fn(u8, u8, u8) -> u8>(
    luma: F,
    steps: Seq<(Seq<char>, Option<u64>)>,
    v: Map<u64, Seq<u8>>,
    cur: Seq<u8>,
) -> (Result<Seq<u8>, Seq<char>>, Map<u64, Seq<u8>>)
    decreases steps.len(),
{
    if steps.len() == 0 {
        (Ok(cur), v)
    } else {
        let (op, extra_id) = steps[0];
        if extra_id is Some && !v.contains_key(extra_id->Some_0) {
            (Err("extra input id 不存在"@), v)
        } else {
            let extra = match extra_id {
                Some(x) => Some(v[x]),
                None => None,
            };
            let v1 = match extra_id {
                Some(x) => v.remove(x),
                None => v,
            };
            match spec_apply(luma, op, cur, extra) {
                Err(e) => (Err(e), v1),
                Ok(next) => spec_run_chain(luma, steps.drop_first(), v1, next),
            }
        }
    }
}

/// What `native_exec_chain` does to a pool with buffers `v` and next id
/// `next`: its result, the buffers after it, and the next id after it.
pub open spec fn spec_native_exec_chain<F: Fn(u8, u8, u8) -> u8>(
    luma: F,
    v: Map<u64, Seq<u8>>,
    next: u64,
    input_id: u64,
    steps: Result<Seq<(Seq<char>, Option<u64>)>, Seq<char>>,
) -> (Result<u64, Seq<char>>, Map<u64, Seq<u8>>, u64) {
    match steps {
        Err(e) => (Err(e), v, next),
        Ok(st) => if st.len() == 0 {
            (Err("steps 不能为空"@), v, next)
        } else if !v.contains_key(input_id) {
            (Err("input id 不存在"@), v, next)
        } else {
            let (res, v1) = spec_run_chain(luma, st, v.remove(input_id), v[input_id]);
            match res {
                Err(e) => (Err(e), v1, next),
                Ok(out) => (Ok(next), v1.insert(next, out), next_buffer_id(next)),
            }
        },
    }
}

/// Runs a chain of operations on the buffer `input_id` and stores the
/// final output under a fresh id.
pub fn native_exec_chain<F: Fn(u8, u8, u8) -> u8>(
    pool: &mut NativePool,
    input_id: u64,
    steps: &JsonValue,
    luma: &F,
) -> (r: Result<u64, String>)
    requires
        old(pool).wf(),
        luma_ok(*luma),
    ensures
        final(pool).wf(),
        old(pool).wrapped() ==> final(pool).wrapped(),
        !old(pool).wrapped() ==> (r matches Ok(id) ==> !old(pool)@.contains_key(id)),
        (id_result_view(r), final(pool)@, final(pool).next_id())
            == spec_native_exec_chain(*luma, old(pool)@, old(pool).next_id(), input_id, spec_chain_steps(*steps)),
{
    let chain = parse_chain_steps(steps)?;
    let ghost st = chain@.map_values(|s: ChainStep| chain_step_view(s));
    if chain.len() == 0 {
        return Err("steps 不能为空".to_string());
    }
    let mut current = match native_buffer_take_raw(pool, input_id) {
        Some(bytes) => bytes,
        None => {
            return Err("input id 不存在".to_string());
        },
    };
    let ghost v0 = pool@;
    let ghost a0 = current@;
    let ghost next0 = pool.next_id();
    let n = chain.len();
    let mut i: usize = 0;
    assert(st.skip(0) =~= st);
    while i < n
        invariant
            n == chain@.len(),
            st == chain@.map_values(|s: ChainStep| chain_step_view(s)),
            i <= n,
            luma_ok(*luma),
            pool.next_id() == next0,
            next0 == old(pool).next_id(),
            pool.wf(),
            old(pool).wf(),
            pool.wrapped() == old(pool).wrapped(),
            spec_chain_steps(*steps) == Ok::<Seq<(Seq<char>, Option<u64>)>, Seq<char>>(st),
            st.len() > 0,
            old(pool)@.contains_key(input_id),
            v0 == old(pool)@.remove(input_id),
            a0 == old(pool)@[input_id],
            spec_run_chain(*luma, st, v0, a0) == spec_run_chain(*luma, st.skip(i as int), pool@, current@),
        decreases n - i,
    {
        proof {
            assert(st.skip(i as int).drop_first() =~= st.skip(i as int + 1));
            assert(st.skip(i as int)[0] == chain_step_view(chain@[i as int]));
        }
        let ghost p0 = pool@;
        let step = &chain[i];
        let extra = match step.extra_input_id {
            Some(extra_id) => {
                match native_buffer_take_raw(pool, extra_id) {
                    Some(bytes) => Some(bytes),
                    None => {
                        assert(pool@ =~= p0);
                        return Err("extra input id 不存在".to_string());
                    },
                }
            },
            None => None,
        };
        let applied = native_apply_op(step.op.as_str(), current, extra, luma);
        match applied {
            Ok(bytes) => {
                current = bytes;
            },
            Err(e) => {
                return Err(e);
            },
        }
        i = i + 1;
    }
    proof {
        assert(st.skip(n as int).len() == 0);
    }
    Ok(native_buffer_put_raw(pool, current))
}

/// An element of an argument vector.
pub open spec fn argv_item(v: JsonValue) -> Result<Seq<char>, Seq<char>> {
    match spec_as_str(v) {
        Some(t) => Ok(t),
        None => Err("argv 必须是字符串数组"@),
    }
}

/// The argument vector that a decoded argument stands for: none when
/// absent, else a JSON array of strings.
pub open spec fn spec_argv(args: Option<Result<JsonValue, String>>) -> Result<Seq<Seq<char>>, Seq<char>> {
    match args {
        None => Ok(Seq::empty()),
        Some(Err(e)) => Err(e@),
        Some(Ok(JsonValue::Array(items))) => collect_all(items@, |x: JsonValue| argv_item(x)),
        Some(Ok(_)) => Err("argv 必须是字符串数组"@),
    }
}

/// The texts of a vector of strings.
pub open spec fn texts_view(v: Seq<String>) -> Seq<Seq<char>> {
    v.map_values(|s: String| s@)
}

/// Reads the arguments for a WASI module: nothing, a decoding error of the
/// caller's, or a JSON array of strings.
pub fn parse_argv(args: Option<Result<JsonValue, String>>) -> (r: Result<Vec<String>, String>)
    ensures
        match r {
            Ok(v) => spec_argv(args) == Ok::<Seq<Seq<char>>, Seq<char>>(texts_view(v@)),
            Err(e) => spec_argv(args) == Err::<Seq<Seq<char>>, Seq<char>>(e@),
        },
{
    let value = match args {
        None => {
            let out: Vec<String> = Vec::new();
            assert(texts_view(out@) =~= Seq::<Seq<char>>::empty());
            return Ok(out);
        },
        Some(Err(e)) => {
            return Err(e);
        },
        Some(Ok(value)) => value,
    };
    let ghost whole = value;
    let items = match value {
        JsonValue::Array(items) => items,
        _ => {
            return Err("argv 必须是字符串数组".to_string());
        },
    };
    let ghost f = |x: JsonValue| argv_item(x);
    let mut out: Vec<String> = Vec::new();
    let n = items.len();
    proof {
        assert(texts_view(out@) =~= Seq::<Seq<char>>::empty());
        assert(collect_all(items@.take(0), f) == Ok::<Seq<Seq<char>>, Seq<char>>(Seq::empty()));
    }
    for i in 0..n
        invariant
            n == items@.len(),
            out@.len() == i,
            spec_argv(args) == collect_all(items@, f),
            forall|x: JsonValue| #[trigger] f(x) == argv_item(x),
            collect_all(items@.take(i as int), f) == Ok::<Seq<Seq<char>>, Seq<char>>(texts_view(out@)),
    {
        proof {
            lemma_collect_step(items@, f, i as int);
            assert(f(items@[i as int]) == argv_item(items@[i as int]));
        }
        match items[i].as_str() {
            Some(text) => {
                let ghost before = out@;
                out.push(text.clone());
                proof {
                    assert(texts_view(out@) =~= texts_view(before).push(text@));
                }
            },
            None => {
                proof {
                    lemma_collect_prefix_err(items@, f, i + 1);
                }
                return Err("argv 必须是字符串数组".to_string());
            },
        }
    }
    proof {
        lemma_take_all(items@);
    }
    Ok(out)
}

/// What a WASI run needs: the module's bytes, the bytes of its standard
/// input, and its argument vector.
pub struct WasiJob {
    pub wasm: Vec<u8>,
    pub stdin: Vec<u8>,
    pub argv: Vec<String>,
}

/// The name a WASI module sees as its program name.
pub open spec fn wasi_program_name() -> Seq<char> {
    "module.wasm"@
}

/// What `wasi_prepare` does to a pool with buffers `v`: the job's module,
/// input and argument vector (or the failure), and the buffers afterwards.
pub open spec fn spec_wasi_prepare(
    v: Map<u64, Seq<u8>>,
    module_id: u64,
    stdin_id: Option<u64>,
    argv: Result<Seq<Seq<char>>, Seq<char>>,
    consume_module: bool,
) -> (Result<(Seq<u8>, Seq<u8>, Seq<Seq<char>>), Seq<char>>, Map<u64, Seq<u8>>) {
    if !v.contains_key(module_id) {
        (Err("module id 不存在"@), v)
    } else {
        let v1 = if consume_module { v.remove(module_id) } else { v };
        if stdin_id is Some && !v1.contains_key(stdin_id->Some_0) {
            (Err("stdin id 不存在"@), v1)
        } else {
            let stdin = match stdin_id {
                Some(x) => v1[x],
                None => Seq::empty(),
            };
            let v2 = match stdin_id {
                Some(x) => v1.remove(x),
                None => v1,
            };
            match argv {
                Err(e) => (Err(e), v2),
                Ok(a) => (Ok((v[module_id], stdin, seq![wasi_program_name()] + a)), v2),
            }
        }
    }
}

fn copy_bytes(bytes: &Vec<u8>) -> (r: Vec<u8>)
    ensures
        r@ == bytes@,
{
    let mut out: Vec<u8> = Vec::new();
    let n = bytes.len();
    for i in 0..n
        invariant
            n == bytes@.len(),
            out@ == bytes@.take(i as int),
    {
        out.push(bytes[i]);
        assert(out@ =~= bytes@.take(i as int + 1));
    }
    assert(out@ =~= bytes@);
    out
}

/// Gathers what a WASI run needs from the pool: the module (taken out
/// when `consume_module`, else copied), the standard input (taken out, or
/// empty) and the argument vector, whose first element is the program name.
pub fn wasi_prepare(
    pool: &mut NativePool,
    module_id: u64,
    stdin_id: Option<u64>,
    args: Option<Result<JsonValue, String>>,
    consume_module: bool,
) -> (r: Result<WasiJob, String>)
    requires
        old(pool).wf(),
    ensures
        final(pool).wf(),
        final(pool).wrapped() == old(pool).wrapped(),
        ({
            let (res, v) = spec_wasi_prepare(old(pool)@, module_id, stdin_id, spec_argv(args), consume_module);
            &&& final(pool)@ == v
            &&& final(pool).next_id() == old(pool).next_id()
            &&& match r {
                Ok(job) => res == Ok::<(Seq<u8>, Seq<u8>, Seq<Seq<char>>), Seq<char>>((job.wasm@, job.stdin@, texts_view(job.argv@))),
                Err(e) => res == Err::<(Seq<u8>, Seq<u8>, Seq<Seq<char>>), Seq<char>>(e@),
            }
        }),
{
    let ghost v = pool@;
    let wasm = if consume_module {
        match native_buffer_take_raw(pool, module_id) {
            Some(bytes) => bytes,
            None => {
                return Err("module id 不存在".to_string());
            },
        }
    } else {
        match pool.get(module_id) {
            Some(bytes) => copy_bytes(bytes),
            None => {
                return Err("module id 不存在".to_string());
            },
        }
    };
    let stdin = match stdin_id {
        Some(id) => {
            let ghost v1 = pool@;
            match native_buffer_take_raw(pool, id) {
                Some(bytes) => bytes,
                None => {
                    assert(pool@ =~= v1);
                    return Err("stdin id 不存在".to_string());
                },
            }
        },
        None => Vec::new(),
    };
    let args = parse_argv(args)?;
    let mut argv: Vec<String> = Vec::new();
    argv.push("module.wasm".to_string());
    let n = args.len();
    for i in 0..n
        invariant
            n == args@.len(),
            texts_view(argv@) == seq![wasi_program_name()] + texts_view(args@).take(i as int),
    {
        let ghost before = argv@;
        argv.push(args[i].clone());
        proof {
            assert(texts_view(argv@) =~= texts_view(before).push(args@[i as int]@));
            assert(texts_view(args@).take(i as int + 1) =~= texts_view(args@).take(i as int).push(args@[i as int]@));
        }
    }
    assert(texts_view(args@).take(n as int) =~= texts_view(args@));
    Ok(WasiJob { wasm, stdin, argv })
}

/// The arguments of a bridge call: none when absent, else a JSON array.
pub open spec fn spec_bridge_args(args: Option<Result<JsonValue, String>>) -> Result<Seq<JsonValue>, Seq<char>> {
    match args {
        None => Ok(Seq::empty()),
        Some(Err(e)) => Err(e@),
        Some(Ok(JsonValue::Array(items))) => Ok(items@),
        Some(Ok(_)) => Err("args 必须是数组"@),
    }
}

/// Reads the arguments of a bridge call: nothing, a decoding error of the
/// caller's, or a JSON array.
pub fn parse_bridge_args(args: Option<Result<JsonValue, String>>) -> (r: Result<Vec<JsonValue>, String>)
    ensures
        match r {
            Ok(v) => spec_bridge_args(args) == Ok::<Seq<JsonValue>, Seq<char>>(v@),
            Err(e) => spec_bridge_args(args) == Err::<Seq<JsonValue>, Seq<char>>(e@),
        },
{
    match args {
        None => Ok(Vec::new()),
        Some(Err(e)) => Err(e),
        Some(Ok(JsonValue::Array(items))) => Ok(items),
        Some(Ok(_)) => Err("args 必须是数组".to_string()),
    }
}

/// The message for a missing argument.
pub open spec fn missing_arg_message(name: Seq<char>) -> Seq<char> {
    "缺少参数: "@ + name
}

/// The message for an argument that is not a string.
pub open spec fn not_string_message(name: Seq<char>) -> Seq<char> {
    "参数 "@ + name + " 必须是字符串"@
}

/// The message for an argument that is not an unsigned integer.
pub open spec fn not_u64_message(name: Seq<char>) -> Seq<char> {
    "参数 "@ + name + " 必须是非负整数"@
}

/// The message for an argument that is not a number.
pub open spec fn not_number_message(name: Seq<char>) -> Seq<char> {
    "参数 "@ + name + " 必须是数字"@
}

/// The message for a bridge method that the host does not offer.
pub open spec fn unknown_method_message(name: Seq<char>) -> Seq<char> {
    "不支持的 bridge 方法: "@ + name
}

fn message_with(prefix: &str, name: &str) -> (r: String)
    ensures
        r@ == prefix@ + name@,
{
    let mut message = prefix.to_string();
    message.append(name);
    message
}

fn message_with_name(prefix: &str, name: &str, suffix: &str) -> (r: String)
    ensures
        r@ == prefix@ + name@ + suffix@,
{
    let mut message = prefix.to_string();
    message.append(name);
    message.append(suffix);
    message
}

/// The argument at `index`.
pub fn require_arg<'a>(args: &'a Vec<JsonValue>, index: usize, name: &str) -> (r: Result<&'a JsonValue, String>)
    ensures
        match r {
            Ok(v) => index < args@.len() && *v == args@[index as int],
            Err(e) => index >= args@.len() && e@ == missing_arg_message(name@),
        },
{
    if index < args.len() {
        Ok(&args[index])
    } else {
        Err(message_with("缺少参数: ", name))
    }
}

/// The argument at `index`, which must be a string.
pub fn require_str_arg(args: &Vec<JsonValue>, index: usize, name: &str) -> (r: Result<String, String>)
    ensures
        match r {
            Ok(t) => index < args@.len() && spec_as_str(args@[index as int]) == Some(t@),
            Err(e) => if index >= args@.len() {
                e@ == missing_arg_message(name@)
            } else {
                spec_as_str(args@[index as int]) is None && e@ == not_string_message(name@)
            },
        },
{
    let value = require_arg(args, index, name)?;
    match value.as_str() {
        Some(text) => Ok(text.clone()),
        None => Err(message_with_name("参数 ", name, " 必须是字符串")),
    }
}

/// The argument at `index`, which must be an unsigned integer.
pub fn require_u64_arg(args: &Vec<JsonValue>, index: usize, name: &str) -> (r: Result<u64, String>)
    ensures
        match r {
            Ok(n) => index < args@.len() && spec_as_u64(args@[index as int]) == Some(n),
            Err(e) => if index >= args@.len() {
                e@ == missing_arg_message(name@)
            } else {
                spec_as_u64(args@[index as int]) is None && e@ == not_u64_message(name@)
            },
        },
{
    let value = require_arg(args, index, name)?;
    match value.as_u64() {
        Some(n) => Ok(n),
        None => Err(message_with_name("参数 ", name, " 必须是非负整数")),
    }
}

fn require_number_arg(args: &Vec<JsonValue>, index: usize, name: &str) -> (r: Result<(), String>)
    ensures
        match r {
            Ok(_) => index < args@.len() && args@[index as int] is Number,
            Err(e) => if index >= args@.len() {
                e@ == missing_arg_message(name@)
            } else {
                !(args@[index as int] is Number) && e@ == not_number_message(name@)
            },
        },
{
    let value = require_arg(args, index, name)?;
    match value {
        JsonValue::Number(_) => Ok(()),
        _ => Err(message_with_name("参数 ", name, " 必须是数字")),
    }
}

/// What a bridge call returns to the script.
pub enum BridgeData {
    /// The sum of the first two arguments, which are numbers; the caller
    /// adds them as floating-point numbers.
    Sum,
    /// The id of a stored buffer.
    Id(u64),
    /// The bytes of a buffer taken out of the pool.
    Bytes(Vec<u8>),
}

/// The mathematical value of what a bridge call returns.
pub enum BridgeDataView {
    Sum,
    Id(u64),
    Bytes(Seq<u8>),
}

/// The mathematical value of the result of a bridge call.
pub open spec fn bridge_result_view(r: Result<BridgeData, String>) -> Result<BridgeDataView, Seq<char>> {
    match r {
        Ok(BridgeData::Sum) => Ok(BridgeDataView::Sum),
        Ok(BridgeData::Id(id)) => Ok(BridgeDataView::Id(id)),
        Ok(BridgeData::Bytes(b)) => Ok(BridgeDataView::Bytes(b@)),
        Err(e) => Err(e@),
    }
}

/// The message for a missing or non-string argument.
pub open spec fn str_arg_error(args: Seq<JsonValue>, index: int, name: Seq<char>) -> Seq<char> {
    if index >= args.len() { missing_arg_message(name) } else { not_string_message(name) }
}

/// The message for a missing or non-integer argument.
pub open spec fn u64_arg_error(args: Seq<JsonValue>, index: int, name: Seq<char>) -> Seq<char> {
    if index >= args.len() { missing_arg_message(name) } else { not_u64_message(name) }
}

/// Whether the argument at `index` is there and is a number.
pub open spec fn number_arg_ok(args: Seq<JsonValue>, index: int) -> bool {
    index < args.len() && args[index] is Number
}

/// The message for a missing or non-number argument.
pub open spec fn number_arg_error(args: Seq<JsonValue>, index: int, name: Seq<char>) -> Seq<char> {
    if index >= args.len() { missing_arg_message(name) } else { not_number_message(name) }
}

/// The argument at `index` as an unsigned integer, where it is one.
pub open spec fn arg_u64(args: Seq<JsonValue>, index: int) -> Option<u64> {
    if index < args.len() { spec_as_u64(args[index]) } else { None }
}

/// The argument at `index` as a string, where it is one.
pub open spec fn arg_str(args: Seq<JsonValue>, index: int) -> Option<Seq<char>> {
    if index < args.len() { spec_as_str(args[index]) } else { None }
}

/// What a bridge call does to a pool with buffers `v` and next id `next`:
/// its result, the buffers after it, and the next id after it.
pub open spec fn spec_bridge_call<F: Fn(u8, u8, u8) -> u8>(
    luma: F,
    v: Map<u64, Seq<u8>>,
    next: u64,
    name: Seq<char>,
    args: Result<Seq<JsonValue>, Seq<char>>,
) -> (Result<BridgeDataView, Seq<char>>, Map<u64, Seq<u8>>, u64) {
    match args {
        Err(e) => (Err(e), v, next),
        Ok(a) => if name == "math.add"@ {
            if !number_arg_ok(a, 0) {
                (Err(number_arg_error(a, 0, "a"@)), v, next)
            } else if !number_arg_ok(a, 1) {
                (Err(number_arg_error(a, 1, "b"@)), v, next)
            } else {
                (Ok(BridgeDataView::Sum), v, next)
            }
        } else if name == "native.put"@ {
            if a.len() == 0 {
                (Err(missing_arg_message("bytes"@)), v, next)
            } else {
                match spec_u8_array(a[0]) {
                    Err(e) => (Err(e), v, next),
                    Ok(b) => (Ok(BridgeDataView::Id(next)), v.insert(next, b), next_buffer_id(next)),
                }
            }
        } else if name == "native.take"@ {
            match arg_u64(a, 0) {
                None => (Err(u64_arg_error(a, 0, "id"@)), v, next),
                Some(id) => if v.contains_key(id) {
                    (Ok(BridgeDataView::Bytes(v[id])), v.remove(id), next)
                } else {
                    (Err("buffer id 不存在"@), v, next)
                },
            }
        } else if name == "native.exec"@ {
            match arg_str(a, 0) {
                None => (Err(str_arg_error(a, 0, "op"@)), v, next),
                Some(op) => match arg_u64(a, 1) {
                    None => (Err(u64_arg_error(a, 1, "inputId"@)), v, next),
                    Some(input_id) => {
                        let (res, v1, next1) = spec_native_exec(luma, v, next, op, input_id, arg_u64(a, 3));
                        match res {
                            Ok(id) => (Ok(BridgeDataView::Id(id)), v1, next1),
                            Err(e) => (Err(e), v1, next1),
                        }
                    },
                },
            }
        } else {
            (Err(unknown_method_message(name)), v, next)
        },
    }
}

/// Carries out a bridge call by name: `math.add`, `native.put`,
/// `native.take` or `native.exec`.
pub fn bridge_call_inner<F: Fn(u8, u8, u8) -> u8>(
    pool: &mut NativePool,
    name: &str,
    args_json: Option<Result<JsonValue, String>>,
    luma: &F,
) -> (r: Result<BridgeData, String>)
    requires
        old(pool).wf(),
        luma_ok(*luma),
    ensures
        final(pool).wf(),
        old(pool).wrapped() ==> final(pool).wrapped(),
        !old(pool).wrapped() ==> (r matches Ok(BridgeData::Id(id)) ==> !old(pool)@.contains_key(id)),
        (bridge_result_view(r), final(pool)@, final(pool).next_id())
            == spec_bridge_call(*luma, old(pool)@, old(pool).next_id(), name@, spec_bridge_args(args_json)),
        name@ == "native.exec"@ && spec_bridge_args(args_json) is Ok && ({
            let a = spec_bridge_args(args_json)->Ok_0;
            a.len() >= 4 && spec_as_str(a[0]) is Some && spec_as_u64(a[1]) is Some && spec_as_u64(a[3]) is Some
        }) ==> ({
            let a = spec_bridge_args(args_json)->Ok_0;
            let (e, w1, m1) = spec_native_exec(*luma, old(pool)@, old(pool).next_id(), spec_as_str(a[0])->Some_0,
                spec_as_u64(a[1])->Some_0, Some(spec_as_u64(a[3])->Some_0));
            &&& final(pool)@ == w1
            &&& final(pool).next_id() == m1
            &&& match e {
                Ok(id) => r matches Ok(BridgeData::Id(got)) && got == id,
                Err(m) => r matches Err(got) && got@ == m,
            }
        }),
{
    proof {
        if spec_bridge_args(args_json) is Ok {
            let a = spec_bridge_args(args_json)->Ok_0;
            if a.len() >= 4 && spec_as_str(a[0]) is Some && spec_as_u64(a[1]) is Some && spec_as_u64(a[3]) is Some {
                law_bridge_exec_takes_fourth_argument(*luma, pool@, pool.next_id(), a, spec_as_str(a[0])->Some_0,
                    spec_as_u64(a[1])->Some_0, spec_as_u64(a[3])->Some_0);
            }
        }
    }
    let args = parse_bridge_args(args_json)?;
    if text_eq(name, "math.add") {
        require_number_arg(&args, 0, "a")?;
        require_number_arg(&args, 1, "b")?;
        Ok(BridgeData::Sum)
    } else if text_eq(name, "native.put") {
        let bytes_arg = require_arg(&args, 0, "bytes")?;
        let bytes = parse_u8_json_value(bytes_arg)?;
        Ok(BridgeData::Id(native_buffer_put_raw(pool, bytes)))
    } else if text_eq(name, "native.take") {
        let id = require_u64_arg(&args, 0, "id")?;
        match native_buffer_take_raw(pool, id) {
            Some(bytes) => Ok(BridgeData::Bytes(bytes)),
            None => Err("buffer id 不存在".to_string()),
        }
    } else if text_eq(name, "native.exec") {
        let op = require_str_arg(&args, 0, "op")?;
        let input_id = require_u64_arg(&args, 1, "inputId")?;
        let extra_input_id = if args.len() > 3 {
            args[3].as_u64()
        } else {
            None
        };
        let id = native_exec(pool, op.as_str(), input_id, extra_input_id, luma)?;
        Ok(BridgeData::Id(id))
    } else {
        Err(message_with("不支持的 bridge 方法: ", name))
    }
}

/// `native_exec` leaves the pool as it was when its input is missing, and
/// also when its second input is missing: the first input is put back.
pub proof fn law_exec_missing_input_keeps_pool<F: Fn(u8, u8, u8) -> u8>(
    luma: F,
    v: Map<u64, Seq<u8>>,
    next: u64,
    op: Seq<char>,
    input_id: u64,
    extra_input_id: Option<u64>,
)
    requires
        !v.contains_key(input_id) || (extra_input_id is Some && !v.remove(input_id).contains_key(extra_input_id->Some_0)),
    ensures
        spec_native_exec(luma, v, next, op, input_id, extra_input_id).0 is Err,
        spec_native_exec(luma, v, next, op, input_id, extra_input_id).1 == v,
        spec_native_exec(luma, v, next, op, input_id, extra_input_id).2 == next,
{
}

/// A chain of one step without a second input does exactly what a single
/// `native_exec` of that operation does.
pub proof fn law_single_step_chain_is_exec<F: Fn(u8, u8, u8) -> u8>(
    luma: F,
    v: Map<u64, Seq<u8>>,
    next: u64,
    op: Seq<char>,
    input_id: u64,
)
    ensures
        spec_native_exec_chain(luma, v, next, input_id, Ok(seq![(op, None::<u64>)]))
            == spec_native_exec(luma, v, next, op, input_id, None),
{
    let st = seq![(op, None::<u64>)];
    assert(st.drop_first() =~= Seq::<(Seq<char>, Option<u64>)>::empty());
    reveal_with_fuel(spec_run_chain, 2);
    if v.contains_key(input_id) {
        assert(st[0] == (op, None::<u64>));
        assert(st.len() == 1);
    }
}

/// A buffer stored through the bridge comes back unchanged when it is
/// taken through the bridge by the id that the bridge returned.
pub proof fn law_bridge_put_then_take<F: Fn(u8, u8, u8) -> u8>(
    luma: F,
    v: Map<u64, Seq<u8>>,
    next: u64,
    data: JsonValue,
    take_args: Seq<JsonValue>,
)
    requires
        spec_u8_array(data) is Ok,
        take_args.len() > 0,
        spec_as_u64(take_args[0]) == Some(next),
    ensures
        ({
            let (r1, v1, next1) = spec_bridge_call(luma, v, next, "native.put"@, Ok(seq![data]));
            let (r2, v2, next2) = spec_bridge_call(luma, v1, next1, "native.take"@, Ok(take_args));
            &&& r1 == Ok::<BridgeDataView, Seq<char>>(BridgeDataView::Id(next))
            &&& r2 == Ok::<BridgeDataView, Seq<char>>(BridgeDataView::Bytes(spec_u8_array(data)->Ok_0))
            &&& v2 == v.remove(next)
        }),
{
    reveal_strlit("native.put");
    reveal_strlit("native.take");
    reveal_strlit("math.add");
    assert("native.put"@ != "math.add"@) by {
        assert("native.put"@[0] != "math.add"@[0]);
    }
    assert("native.take"@ != "math.add"@) by {
        assert("native.take"@[0] != "math.add"@[0]);
    }
    assert("native.take"@ != "native.put"@) by {
        assert("native.take"@[7] != "native.put"@[7]);
    }
    let a = seq![data];
    assert(a[0] == data);
    let b = spec_u8_array(data)->Ok_0;
    let v1 = v.insert(next, b);
    assert(spec_bridge_call(luma, v, next, "native.put"@, Ok(a)) == (Ok::<BridgeDataView, Seq<char>>(BridgeDataView::Id(next)), v1, next_buffer_id(next)));
    assert(arg_u64(take_args, 0) == Some(next));
    assert(v1.contains_key(next));
    assert(v1.remove(next) =~= v.remove(next));
}

/// Until the id counter wraps around, every stored id is below the id that
/// the next stored buffer gets, so every new buffer id differs from every
/// stored one.
pub proof fn law_next_id_is_fresh(pool: &NativePool)
    requires
        pool.wf(),
        !pool.wrapped(),
    ensures
        forall|k: u64| #[trigger] pool@.contains_key(k) ==> k < pool.next_id(),
        !pool@.contains_key(pool.next_id()),
{
    assert forall|k: u64| #[trigger] pool@.contains_key(k) implies k < pool.next_id() by {
        assert(pool.buffers@.contains_key(k));
    }
}

/// An exclusive-or run combines the input with the second input, byte by
/// byte: the result, stored under the next id, has byte `i` equal to
/// `input[i] ^ extra[i]`, and both inputs leave the pool while every other
/// buffer stays.
pub proof fn law_exec_xor_combines_both_inputs<F: Fn(u8, u8, u8) -> u8>(
    luma: F,
    v: Map<u64, Seq<u8>>,
    next: u64,
    input_id: u64,
    extra_id: u64,
)
    requires
        v.contains_key(input_id),
        v.contains_key(extra_id),
        input_id != extra_id,
        v[input_id].len() == v[extra_id].len(),
    ensures
        ({
            let (r, v1, n1) = spec_native_exec(luma, v, next, "xor"@, input_id, Some(extra_id));
            &&& r == Ok::<u64, Seq<char>>(next)
            &&& n1 == next_buffer_id(next)
            &&& v1.contains_key(next)
            &&& v1[next].len() == v[input_id].len()
            &&& forall|i: int| 0 <= i < v1[next].len() ==> #[trigger] v1[next][i] == v[input_id][i] ^ v[extra_id][i]
            &&& forall|k: u64| k != next ==> (v1.contains_key(k) <==> (v.contains_key(k) && k != input_id && k != extra_id))
            &&& forall|k: u64| k != next && v1.contains_key(k) ==> v1[k] == v[k]
        }),
{
    reveal_strlit("xor");
    reveal_strlit("invert");
    reveal_strlit("grayscale_rgba");
    assert("xor"@ != "invert"@) by {
        assert("xor"@[0] != "invert"@[0]);
    }
    assert("xor"@ != "grayscale_rgba"@) by {
        assert("xor"@[0] != "grayscale_rgba"@[0]);
    }
    assert(spec_native_op("xor"@) == Some(NativeOp::Xor));
}

/// A `native.exec` bridge call reads the operation from the first
/// argument, the input id from the second and the second input's id from
/// the fourth (the third holds the operation's own arguments): it does
/// what `native_exec` does with those. For an exclusive-or of two inputs
/// of one length, the result is a new buffer whose byte `i` is
/// `left[i] ^ right[i]`.
pub proof fn law_bridge_exec_takes_fourth_argument<F: Fn(u8, u8, u8) -> u8>(
    luma: F,
    v: Map<u64, Seq<u8>>,
    next: u64,
    a: Seq<JsonValue>,
    op: Seq<char>,
    input_id: u64,
    extra_id: u64,
)
    requires
        a.len() >= 4,
        spec_as_str(a[0]) == Some(op),
        spec_as_u64(a[1]) == Some(input_id),
        spec_as_u64(a[3]) == Some(extra_id),
    ensures
        ({
            let (r, v1, n1) = spec_bridge_call(luma, v, next, "native.exec"@, Ok(a));
            let (e, w1, m1) = spec_native_exec(luma, v, next, op, input_id, Some(extra_id));
            &&& v1 == w1
            &&& n1 == m1
            &&& match e {
                Ok(id) => r == Ok::<BridgeDataView, Seq<char>>(BridgeDataView::Id(id)),
                Err(m) => r == Err::<BridgeDataView, Seq<char>>(m),
            }
        }),
        op == "xor"@ && v.contains_key(input_id) && v.contains_key(extra_id) && input_id != extra_id
            && v[input_id].len() == v[extra_id].len() ==> ({
            let (r, v1, n1) = spec_bridge_call(luma, v, next, "native.exec"@, Ok(a));
            &&& r == Ok::<BridgeDataView, Seq<char>>(BridgeDataView::Id(next))
            &&& v1[next].len() == v[input_id].len()
            &&& forall|i: int| 0 <= i < v1[next].len() ==> #[trigger] v1[next][i] == v[input_id][i] ^ v[extra_id][i]
        }),
{
    reveal_strlit("native.exec");
    reveal_strlit("math.add");
    reveal_strlit("native.put");
    reveal_strlit("native.take");
    assert("native.exec"@ != "math.add"@) by {
        assert("native.exec"@[0] != "math.add"@[0]);
    }
    assert("native.exec"@ != "native.put"@) by {
        assert("native.exec"@[7] != "native.put"@[7]);
    }
    assert("native.exec"@ != "native.take"@) by {
        assert("native.exec"@[7] != "native.take"@[7]);
    }
    assert(arg_u64(a, 3) == Some(extra_id));
    if op == "xor"@ && v.contains_key(input_id) && v.contains_key(extra_id) && input_id != extra_id
        && v[input_id].len() == v[extra_id].len() {
        law_exec_xor_combines_both_inputs(luma, v, next, input_id, extra_id);
    }
}

/// Inverting replaces each byte `b` of the input by `255 - b` in a new
/// buffer under the next id; `noop` copies the input there unchanged. The
/// input leaves the pool and every other buffer stays.
pub proof fn law_exec_invert_and_noop<F: Fn(u8, u8, u8) -> u8>(
    luma: F,
    v: Map<u64, Seq<u8>>,
    next: u64,
    input_id: u64,
)
    requires
        v.contains_key(input_id),
    ensures
        ({
            let (r, v1, n1) = spec_native_exec(luma, v, next, "invert"@, input_id, None);
            &&& r == Ok::<u64, Seq<char>>(next)
            &&& n1 == next_buffer_id(next)
            &&& v1[next].len() == v[input_id].len()
            &&& forall|i: int| 0 <= i < v[input_id].len() ==> #[trigger] v1[next][i] == 255 - v[input_id][i]
            &&& v1 == v.remove(input_id).insert(next, v1[next])
        }),
        ({
            let (r, v1, n1) = spec_native_exec(luma, v, next, "noop"@, input_id, None);
            &&& r == Ok::<u64, Seq<char>>(next)
            &&& n1 == next_buffer_id(next)
            &&& v1 == v.remove(input_id).insert(next, v[input_id])
        }),
{
    reveal_strlit("invert");
    reveal_strlit("noop");
    reveal_strlit("grayscale_rgba");
    reveal_strlit("xor");
    assert("noop"@ != "invert"@) by {
        assert("noop"@[0] != "invert"@[0]);
    }
    assert("noop"@ != "grayscale_rgba"@) by {
        assert("noop"@[0] != "grayscale_rgba"@[0]);
    }
    assert("noop"@ != "xor"@) by {
        assert("noop"@[0] != "xor"@[0]);
    }
    assert(spec_native_op("noop"@) == Some(NativeOp::Noop));
    let (r, v1, n1) = spec_native_exec(luma, v, next, "invert"@, input_id, None);
    assert(v1 =~= v.remove(input_id).insert(next, v1[next]));
}

/// A WASI job is the module's bytes, the standard input (empty when none
/// is given) and the argument vector `module.wasm` followed by the given
/// strings in order; the module stays in the pool exactly when it is not
/// consumed, and the standard input leaves it.
pub proof fn law_wasi_job_argv(
    v: Map<u64, Seq<u8>>,
    module_id: u64,
    stdin_id: Option<u64>,
    args: Seq<Seq<char>>,
    consume_module: bool,
)
    requires
        v.contains_key(module_id),
        stdin_id matches Some(s) ==> s != module_id && v.contains_key(s),
    ensures
        ({
            let (res, v2) = spec_wasi_prepare(v, module_id, stdin_id, Ok(args), consume_module);
            &&& res is Ok
            &&& res->Ok_0.0 == v[module_id]
            &&& res->Ok_0.1 == match stdin_id {
                Some(s) => v[s],
                None => Seq::<u8>::empty(),
            }
            &&& res->Ok_0.2.len() == args.len() + 1
            &&& res->Ok_0.2[0] == "module.wasm"@
            &&& forall|i: int| 0 <= i < args.len() ==> #[trigger] res->Ok_0.2[i + 1] == args[i]
            &&& v2.contains_key(module_id) == !consume_module
            &&& stdin_id matches Some(s) ==> !v2.contains_key(s)
        }),
{
    let (res, v2) = spec_wasi_prepare(v, module_id, stdin_id, Ok(args), consume_module);
    let argv = res->Ok_0.2;
    assert forall|i: int| 0 <= i < args.len() implies #[trigger] argv[i + 1] == args[i] by {
        assert((seq![wasi_program_name()] + args)[i + 1] == args[i]);
    }
}

/// Storing a byte array through the bridge keeps exactly its numbers, one
/// byte each, in order, under the next id.
pub proof fn law_bridge_put_keeps_each_byte<F: Fn(u8, u8, u8) -> u8>(
    luma: F,
    v: Map<u64, Seq<u8>>,
    next: u64,
    a: Seq<JsonValue>,
    items: Seq<JsonValue>,
)
    requires
        a.len() > 0,
        a[0] matches JsonValue::Array(w) && w@ == items,
        forall|i: int| 0 <= i < items.len() ==> (#[trigger] spec_as_u64(items[i]) matches Some(n) && n <= 255),
    ensures
        ({
            let (r, v1, n1) = spec_bridge_call(luma, v, next, "native.put"@, Ok(a));
            &&& r == Ok::<BridgeDataView, Seq<char>>(BridgeDataView::Id(next))
            &&& n1 == next_buffer_id(next)
            &&& v1.contains_key(next)
            &&& v1[next].len() == items.len()
            &&& forall|i: int| 0 <= i < items.len() ==> #[trigger] v1[next][i] == spec_as_u64(items[i])->Some_0
        }),
{
    reveal_strlit("native.put");
    reveal_strlit("math.add");
    assert("native.put"@ != "math.add"@) by {
        assert("native.put"@[0] != "math.add"@[0]);
    }
    let f = |x: JsonValue| byte_item(x);
    assert forall|i: int| 0 <= i < items.len() implies #[trigger] f(items[i]) is Ok by {
        assert(spec_as_u64(items[i]) is Some);
    }
    lemma_collect_all_ok(items, f);
    let (r, v1, n1) = spec_bridge_call(luma, v, next, "native.put"@, Ok(a));
    assert forall|i: int| 0 <= i < items.len() implies #[trigger] v1[next][i] == spec_as_u64(items[i])->Some_0 by {
        assert(spec_as_u64(items[i]) is Some);
        assert(f(items[i]) is Ok);
    }
}

} // verus!
