use vstd::prelude::*;
use crate::json::{get_field, json_get, Json};
use crate::model::{Block, BlockV, Document, DocumentV, Function, FunctionV, Instruction, Pass,
    PassV};
use crate::scalar::Scalar;
use crate::Error;

verus! {

/// The display value under `key` of `j`: an absent field stands as JSON
/// `null`; a present value must be a scalar, anything else is a shape
/// error.
pub open spec fn spec_display_field(j: Json, key: Seq<char>) -> Option<Scalar> {
    match json_get(j, key) {
        Option::None => Option::Some(Scalar::Null),
        Option::Some(Json::Scalar(s)) => Option::Some(s),
        Option::Some(_) => Option::None,
    }
}

/// One decoded instruction: `id` must be a non-negative integer, `opcode`
/// a string, `type` a display value.
pub open spec fn spec_decode_instruction(j: Json) -> Option<Instruction> {
    match (json_get(j, "id"@), json_get(j, "opcode"@), spec_display_field(j, "type"@)) {
        (
            Option::Some(Json::Scalar(Scalar::UInt(id))),
            Option::Some(Json::Scalar(Scalar::Str(op))),
            Option::Some(ty),
        ) => Option::Some(Instruction { id, opcode: op, ty }),
        _ => Option::None,
    }
}

pub open spec fn spec_decode_instructions(v: Seq<Json>) -> Option<Seq<Instruction>>
    decreases v.len(),
{
    if v.len() == 0 {
        Option::Some(Seq::empty())
    } else {
        match (spec_decode_instructions(v.drop_last()), spec_decode_instruction(v.last())) {
            (Option::Some(rest), Option::Some(i)) => Option::Some(rest.push(i)),
            _ => Option::None,
        }
    }
}

/// Each successor entry must be a display value.
pub open spec fn spec_decode_successors(v: Seq<Json>) -> Option<Seq<Scalar>>
    decreases v.len(),
{
    if v.len() == 0 {
        Option::Some(Seq::empty())
    } else {
        match (spec_decode_successors(v.drop_last()), v.last()) {
            (Option::Some(rest), Json::Scalar(s)) => Option::Some(rest.push(s)),
            _ => Option::None,
        }
    }
}

/// One decoded block: a display `number`, and `instructions` and
/// `successors` arrays.
pub open spec fn spec_decode_block(j: Json) -> Option<BlockV> {
    match (spec_display_field(j, "number"@), json_get(j, "instructions"@), json_get(
        j,
        "successors"@,
    )) {
        (Option::Some(num), Option::Some(Json::Arr(iv)), Option::Some(Json::Arr(sv))) => {
            match (spec_decode_instructions(iv@), spec_decode_successors(sv@)) {
                (Option::Some(instrs), Option::Some(succs)) => Option::Some(
                    BlockV { number: num, instructions: instrs, successors: succs },
                ),
                _ => Option::None,
            }
        },
        _ => Option::None,
    }
}

pub open spec fn spec_decode_blocks(v: Seq<Json>) -> Option<Seq<BlockV>>
    decreases v.len(),
{
    if v.len() == 0 {
        Option::Some(Seq::empty())
    } else {
        match (spec_decode_blocks(v.drop_last()), spec_decode_block(v.last())) {
            (Option::Some(rest), Option::Some(b)) => Option::Some(rest.push(b)),
            _ => Option::None,
        }
    }
}

/// The `mir.blocks` field of a pass, when both steps land on one.
pub open spec fn spec_mir_blocks(j: Json) -> Option<Json> {
    match json_get(j, "mir"@) {
        Option::Some(m) => json_get(m, "blocks"@),
        Option::None => Option::None,
    }
}

/// One decoded pass: a display `name` and a `mir.blocks` array; only the
/// mid-level tier is read, any lower tier present in the data is ignored.
pub open spec fn spec_decode_pass(j: Json) -> Option<PassV> {
    match (spec_display_field(j, "name"@), spec_mir_blocks(j)) {
        (Option::Some(nm), Option::Some(Json::Arr(bv))) => match spec_decode_blocks(bv@) {
            Option::Some(bs) => Option::Some(PassV { name: nm, blocks: bs }),
            _ => Option::None,
        },
        _ => Option::None,
    }
}

pub open spec fn spec_decode_passes(v: Seq<Json>) -> Option<Seq<PassV>>
    decreases v.len(),
{
    if v.len() == 0 {
        Option::Some(Seq::empty())
    } else {
        match (spec_decode_passes(v.drop_last()), spec_decode_pass(v.last())) {
            (Option::Some(rest), Option::Some(p)) => Option::Some(rest.push(p)),
            _ => Option::None,
        }
    }
}

/// One decoded function: a display `name` and a `passes` array.
pub open spec fn spec_decode_function(j: Json) -> Option<FunctionV> {
    match (spec_display_field(j, "name"@), json_get(j, "passes"@)) {
        (Option::Some(nm), Option::Some(Json::Arr(pv))) => match spec_decode_passes(pv@) {
            Option::Some(ps) => Option::Some(FunctionV { name: nm, passes: ps }),
            _ => Option::None,
        },
        _ => Option::None,
    }
}

pub open spec fn spec_decode_functions(v: Seq<Json>) -> Option<Seq<FunctionV>>
    decreases v.len(),
{
    if v.len() == 0 {
        Option::Some(Seq::empty())
    } else {
        match (spec_decode_functions(v.drop_last()), spec_decode_function(v.last())) {
            (Option::Some(rest), Option::Some(f)) => Option::Some(rest.push(f)),
            _ => Option::None,
        }
    }
}

/// A decoded document: a `functions` array at the root.
pub open spec fn spec_decode_document(j: Json) -> Option<DocumentV> {
    match json_get(j, "functions"@) {
        Option::Some(Json::Arr(fv)) => match spec_decode_functions(fv@) {
            Option::Some(fs) => Option::Some(DocumentV { functions: fs }),
            _ => Option::None,
        },
        _ => Option::None,
    }
}

proof fn lemma_instructions_fail(v: Seq<Json>, i: int)
    requires
        0 <= i < v.len(),
        spec_decode_instruction(v[i]) is None,
    ensures
        spec_decode_instructions(v) is None,
    decreases v.len(),
{
    if i < v.len() - 1 {
        lemma_instructions_fail(v.drop_last(), i);
    }
}

proof fn lemma_successors_fail(v: Seq<Json>, i: int)
    requires
        0 <= i < v.len(),
        !(v[i] is Scalar),
    ensures
        spec_decode_successors(v) is None,
    decreases v.len(),
{
    if i < v.len() - 1 {
        lemma_successors_fail(v.drop_last(), i);
    }
}

proof fn lemma_blocks_fail(v: Seq<Json>, i: int)
    requires
        0 <= i < v.len(),
        spec_decode_block(v[i]) is None,
    ensures
        spec_decode_blocks(v) is None,
    decreases v.len(),
{
    if i < v.len() - 1 {
        lemma_blocks_fail(v.drop_last(), i);
    }
}

proof fn lemma_passes_fail(v: Seq<Json>, i: int)
    requires
        0 <= i < v.len(),
        spec_decode_pass(v[i]) is None,
    ensures
        spec_decode_passes(v) is None,
    decreases v.len(),
{
    if i < v.len() - 1 {
        lemma_passes_fail(v.drop_last(), i);
    }
}

proof fn lemma_functions_fail(v: Seq<Json>, i: int)
    requires
        0 <= i < v.len(),
        spec_decode_function(v[i]) is None,
    ensures
        spec_decode_functions(v) is None,
    decreases v.len(),
{
    if i < v.len() - 1 {
        lemma_functions_fail(v.drop_last(), i);
    }
}

/// A missing or non-string `opcode` on any one instruction, anywhere in
/// the document, makes the whole decode fail: `f` a member of the
/// document's function array, `p` of `f`'s pass array, `b` of `p`'s
/// `mir.blocks` array, and `ins` of `b`'s instruction array.
pub proof fn lemma_missing_opcode_aborts(doc: Json, f: Json, p: Json, b: Json, ins: Json)
    requires
        json_get(doc, "functions"@) matches Some(fj) && fj matches Json::Arr(fv) && fv@.contains(
            f,
        ),
        json_get(f, "passes"@) matches Some(pj) && pj matches Json::Arr(pv) && pv@.contains(p),
        spec_mir_blocks(p) matches Some(bj) && bj matches Json::Arr(bv) && bv@.contains(b),
        json_get(b, "instructions"@) matches Some(ij) && ij matches Json::Arr(iv) && iv@.contains(
            ins,
        ),
        !(json_get(ins, "opcode"@) matches Some(oj) && oj matches Json::Scalar(os)
            && os is Str),
    ensures
        spec_decode_document(doc) is None,
{
    let fv = json_get(doc, "functions"@)->0->Arr_0;
    let pv = json_get(f, "passes"@)->0->Arr_0;
    let bv = spec_mir_blocks(p)->0->Arr_0;
    let iv = json_get(b, "instructions"@)->0->Arr_0;
    assert(spec_decode_instruction(ins) is None);
    let ii = choose|k: int| 0 <= k < iv@.len() && iv@[k] == ins;
    lemma_instructions_fail(iv@, ii);
    assert(spec_decode_block(b) is None);
    let bi = choose|k: int| 0 <= k < bv@.len() && bv@[k] == b;
    lemma_blocks_fail(bv@, bi);
    assert(spec_decode_pass(p) is None);
    let pi = choose|k: int| 0 <= k < pv@.len() && pv@[k] == p;
    lemma_passes_fail(pv@, pi);
    assert(spec_decode_function(f) is None);
    let fi = choose|k: int| 0 <= k < fv@.len() && fv@[k] == f;
    lemma_functions_fail(fv@, fi);
}

/// The display value under `key`, with an absent field standing as `null`.
pub fn display_field(j: &Json, key: &str) -> (r: Result<Scalar, Error>)
    ensures
        match r {
            Ok(s) => spec_display_field(*j, key@) == Some(s),
            Err(e) => spec_display_field(*j, key@) is None && e is MissingField,
        },
{
    match get_field(j, key) {
        Option::None => Ok(Scalar::Null),
        Option::Some(Json::Scalar(s)) => Ok(s.duplicate()),
        Option::Some(_) => Err(Error::MissingField),
    }
}

/// Decodes one instruction, or fails on a missing or mistyped field.
pub fn decode_instruction(j: &Json) -> (r: Result<Instruction, Error>)
    ensures
        match r {
            Ok(i) => spec_decode_instruction(*j) == Some(i),
            Err(e) => spec_decode_instruction(*j) is None && e is MissingField,
        },
{
    let id: u64 = match get_field(j, "id") {
        Option::Some(Json::Scalar(Scalar::UInt(n))) => *n,
        _ => {
            return Err(Error::MissingField);
        },
    };
    let opcode: String = match get_field(j, "opcode") {
        Option::Some(Json::Scalar(Scalar::Str(s))) => s.clone(),
        _ => {
            return Err(Error::MissingField);
        },
    };
    let ty: Scalar = match display_field(j, "type") {
        Ok(s) => s,
        Err(e) => {
            return Err(e);
        },
    };
    Ok(Instruction { id, opcode, ty })
}

/// Decodes a block's instruction array, all or nothing.
pub fn decode_instructions(v: &Vec<Json>) -> (r: Result<Vec<Instruction>, Error>)
    ensures
        match r {
            Ok(is) => spec_decode_instructions(v@) == Some(is@),
            Err(e) => spec_decode_instructions(v@) is None && e is MissingField,
        },
{
    let n = v.len();
    let mut acc: Vec<Instruction> = Vec::new();
    let mut i: usize = 0;
    while i < n
        invariant
            i <= n,
            n == v@.len(),
            spec_decode_instructions(v@.subrange(0, i as int)) == Some(acc@),
        decreases n - i,
    {
        match decode_instruction(&v[i]) {
            Ok(ins) => {
                acc.push(ins);
            },
            Err(e) => {
                proof {
                    lemma_instructions_fail(v@, i as int);
                }
                return Err(e);
            },
        }
        proof {
            let pre = v@.subrange(0, i as int);
            let post = v@.subrange(0, i + 1);
            assert(post.drop_last() =~= pre);
            assert(post.last() == v@[i as int]);
        }
        i += 1;
    }
    proof {
        assert(v@.subrange(0, n as int) =~= v@);
    }
    Ok(acc)
}

/// Decodes a block's successor array, all or nothing.
pub fn decode_successors(v: &Vec<Json>) -> (r: Result<Vec<Scalar>, Error>)
    ensures
        match r {
            Ok(ss) => spec_decode_successors(v@) == Some(ss@),
            Err(e) => spec_decode_successors(v@) is None && e is MissingField,
        },
{
    let n = v.len();
    let mut acc: Vec<Scalar> = Vec::new();
    let mut i: usize = 0;
    while i < n
        invariant
            i <= n,
            n == v@.len(),
            spec_decode_successors(v@.subrange(0, i as int)) == Some(acc@),
        decreases n - i,
    {
        match &v[i] {
            Json::Scalar(s) => {
                acc.push(s.duplicate());
            },
            _ => {
                proof {
                    lemma_successors_fail(v@, i as int);
                }
                return Err(Error::MissingField);
            },
        }
        proof {
            let pre = v@.subrange(0, i as int);
            let post = v@.subrange(0, i + 1);
            assert(post.drop_last() =~= pre);
            assert(post.last() == v@[i as int]);
        }
        i += 1;
    }
    proof {
        assert(v@.subrange(0, n as int) =~= v@);
    }
    Ok(acc)
}

/// Decodes one block, or fails on a missing or mistyped field.
pub fn decode_block(j: &Json) -> (r: Result<Block, Error>)
    ensures
        match r {
            Ok(b) => spec_decode_block(*j) == Some(b@),
            Err(e) => spec_decode_block(*j) is None && e is MissingField,
        },
{
    let number = match display_field(j, "number") {
        Ok(s) => s,
        Err(e) => {
            return Err(e);
        },
    };
    let instructions = match get_field(j, "instructions") {
        Option::Some(Json::Arr(iv)) => match decode_instructions(iv) {
            Ok(x) => x,
            Err(e) => {
                return Err(e);
            },
        },
        _ => {
            return Err(Error::MissingField);
        },
    };
    let successors = match get_field(j, "successors") {
        Option::Some(Json::Arr(sv)) => match decode_successors(sv) {
            Ok(x) => x,
            Err(e) => {
                return Err(e);
            },
        },
        _ => {
            return Err(Error::MissingField);
        },
    };
    Ok(Block { number, instructions, successors })
}

/// Decodes a pass's block array, all or nothing.
pub fn decode_blocks(v: &Vec<Json>) -> (r: Result<Vec<Block>, Error>)
    ensures
        match r {
            Ok(bs) => spec_decode_blocks(v@) == Some(bs@.map_values(|b: Block| b@)),
            Err(e) => spec_decode_blocks(v@) is None && e is MissingField,
        },
{
    let n = v.len();
    let mut acc: Vec<Block> = Vec::new();
    let mut i: usize = 0;
    while i < n
        invariant
            i <= n,
            n == v@.len(),
            spec_decode_blocks(v@.subrange(0, i as int)) == Some(
                acc@.map_values(|b: Block| b@),
            ),
        decreases n - i,
    {
        match decode_block(&v[i]) {
            Ok(b) => {
                let ghost prev = acc@.map_values(|b: Block| b@);
                acc.push(b);
                proof {
                    assert(acc@.map_values(|b: Block| b@) =~= prev.push(acc@.last()@));
                }
            },
            Err(e) => {
                proof {
                    lemma_blocks_fail(v@, i as int);
                }
                return Err(e);
            },
        }
        proof {
            let pre = v@.subrange(0, i as int);
            let post = v@.subrange(0, i + 1);
            assert(post.drop_last() =~= pre);
            assert(post.last() == v@[i as int]);
        }
        i += 1;
    }
    proof {
        assert(v@.subrange(0, n as int) =~= v@);
    }
    Ok(acc)
}

/// Decodes one pass, or fails on a missing or mistyped field.
pub fn decode_pass(j: &Json) -> (r: Result<Pass, Error>)
    ensures
        match r {
            Ok(p) => spec_decode_pass(*j) == Some(p@),
            Err(e) => spec_decode_pass(*j) is None && e is MissingField,
        },
{
    let name = match display_field(j, "name") {
        Ok(s) => s,
        Err(e) => {
            return Err(e);
        },
    };
    let blocks = match get_field(j, "mir") {
        Option::Some(m) => match get_field(m, "blocks") {
            Option::Some(Json::Arr(bv)) => match decode_blocks(bv) {
                Ok(x) => x,
                Err(e) => {
                    return Err(e);
                },
            },
            _ => {
                return Err(Error::MissingField);
            },
        },
        Option::None => {
            return Err(Error::MissingField);
        },
    };
    Ok(Pass { name, blocks })
}

/// Decodes a function's pass array, all or nothing.
pub fn decode_passes(v: &Vec<Json>) -> (r: Result<Vec<Pass>, Error>)
    ensures
        match r {
            Ok(ps) => spec_decode_passes(v@) == Some(ps@.map_values(|p: Pass| p@)),
            Err(e) => spec_decode_passes(v@) is None && e is MissingField,
        },
{
    let n = v.len();
    let mut acc: Vec<Pass> = Vec::new();
    let mut i: usize = 0;
    while i < n
        invariant
            i <= n,
            n == v@.len(),
            spec_decode_passes(v@.subrange(0, i as int)) == Some(acc@.map_values(|p: Pass| p@)),
        decreases n - i,
    {
        match decode_pass(&v[i]) {
            Ok(p) => {
                let ghost prev = acc@.map_values(|p: Pass| p@);
                acc.push(p);
                proof {
                    assert(acc@.map_values(|p: Pass| p@) =~= prev.push(acc@.last()@));
                }
            },
            Err(e) => {
                proof {
                    lemma_passes_fail(v@, i as int);
                }
                return Err(e);
            },
        }
        proof {
            let pre = v@.subrange(0, i as int);
            let post = v@.subrange(0, i + 1);
            assert(post.drop_last() =~= pre);
            assert(post.last() == v@[i as int]);
        }
        i += 1;
    }
    proof {
        assert(v@.subrange(0, n as int) =~= v@);
    }
    Ok(acc)
}

/// Decodes one function, or fails on a missing or mistyped field.
pub fn decode_function(j: &Json) -> (r: Result<Function, Error>)
    ensures
        match r {
            Ok(f) => spec_decode_function(*j) == Some(f@),
            Err(e) => spec_decode_function(*j) is None && e is MissingField,
        },
{
    let name = match display_field(j, "name") {
        Ok(s) => s,
        Err(e) => {
            return Err(e);
        },
    };
    let passes = match get_field(j, "passes") {
        Option::Some(Json::Arr(pv)) => match decode_passes(pv) {
            Ok(x) => x,
            Err(e) => {
                return Err(e);
            },
        },
        _ => {
            return Err(Error::MissingField);
        },
    };
    Ok(Function { name, passes })
}

/// Decodes the document's function array, all or nothing.
fn decode_functions(v: &Vec<Json>) -> (r: Result<Vec<Function>, Error>)
    ensures
        match r {
            Ok(fs) => spec_decode_functions(v@) == Some(fs@.map_values(|f: Function| f@)),
            Err(e) => spec_decode_functions(v@) is None && e is MissingField,
        },
{
    let n = v.len();
    let mut acc: Vec<Function> = Vec::new();
    let mut i: usize = 0;
    while i < n
        invariant
            i <= n,
            n == v@.len(),
            spec_decode_functions(v@.subrange(0, i as int)) == Some(
                acc@.map_values(|f: Function| f@),
            ),
        decreases n - i,
    {
        match decode_function(&v[i]) {
            Ok(f) => {
                let ghost prev = acc@.map_values(|f: Function| f@);
                acc.push(f);
                proof {
                    assert(acc@.map_values(|f: Function| f@) =~= prev.push(acc@.last()@));
                }
            },
            Err(e) => {
                proof {
                    lemma_functions_fail(v@, i as int);
                }
                return Err(e);
            },
        }
        proof {
            let pre = v@.subrange(0, i as int);
            let post = v@.subrange(0, i + 1);
            assert(post.drop_last() =~= pre);
            assert(post.last() == v@[i as int]);
        }
        i += 1;
    }
    proof {
        assert(v@.subrange(0, n as int) =~= v@);
    }
    Ok(acc)
}

/// Decodes a whole structured value tree into a typed document; fails with
/// the shape error exactly when any consumed field is absent or of the
/// wrong type.
pub fn decode_document(j: &Json) -> (r: Result<Document, Error>)
    ensures
        match r {
            Ok(d) => spec_decode_document(*j) == Some(d@),
            Err(e) => spec_decode_document(*j) is None && e is MissingField,
        },
{
    let functions = match get_field(j, "functions") {
        Option::Some(Json::Arr(fv)) => match decode_functions(fv) {
            Ok(x) => x,
            Err(e) => {
                return Err(e);
            },
        },
        _ => {
            return Err(Error::MissingField);
        },
    };
    Ok(Document { functions })
}

} // verus!
