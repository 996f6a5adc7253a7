//! Reading a program of the `koopa` crate into the form that the code
//! generator works on.
//!
//! The handles of `koopa` are opaque and come from counters of the process.
//! The reader gives each value it meets a position in the function's table,
//! operands before their users, and nothing here depends on what a handle is.

use crate::boundary::{
    binary_op, binary_operands, blocks_of, count_of, function_blocks, function_data,
    function_handles, function_layout, function_name, function_of, kind_of, name_of,
    operands_of, operator_of, parse_program, same_value, value_count, value_kind, RawValue,
};
use crate::emit::emitted_text;
use crate::program::{operands_before, IrFunction, IrProgram, IrValue};
use vstd::prelude::*;

verus! {

/// Why a program could not be read.
#[derive(Debug, Clone, Copy, PartialEq, Eq, Structural)]
pub enum ReadError {
    /// The text is no IR program.
    InvalidText,
    /// The layout names a function for which the program holds no data.
    MissingFunction,
    /// Operands are nested more deeply than the function has values, as
    /// they are where a value is, through its operands, an operand of itself.
    TooDeep,
}

/// The handles of the instructions of some blocks, block after block.
pub open spec fn block_handles(blocks: Seq<Seq<koopa::ir::Value>>) -> Seq<koopa::ir::Value>
    decreases blocks.len(),
{
    if blocks.len() == 0 {
        Seq::empty()
    } else {
        block_handles(blocks.drop_last()) + blocks.last()
    }
}

/// The handles of the instructions of a function, in layout order.
pub open spec fn layout_handles(fd: koopa::ir::FunctionData) -> Seq<koopa::ir::Value> {
    block_handles(blocks_of(fd))
}

/// The value at position `k` of the table is what the function holds for the
/// handle `handles[k]`, with each operand replaced by a position before `k`
/// at which the operand's handle stands. A handle without a local value is
/// kept as a value of another kind.
pub open spec fn value_matches(
    fd: koopa::ir::FunctionData,
    handles: Seq<koopa::ir::Value>,
    values: Seq<IrValue>,
    k: int,
) -> bool {
    match kind_of(fd, handles[k]) {
        RawValue::Integer(n) => values[k] == IrValue::Integer(n),
        RawValue::Binary(b) => match values[k] {
            IrValue::Binary(op, l, r) => {
                &&& op == operator_of(b)
                &&& l < k
                &&& r < k
                &&& handles[l as int] == operands_of(b).0
                &&& handles[r as int] == operands_of(b).1
            },
            _ => false,
        },
        RawValue::Return(None) => values[k] == IrValue::Return(None),
        RawValue::Return(Some(x)) => match values[k] {
            IrValue::Return(Some(i)) => i < k && handles[i as int] == x,
            _ => false,
        },
        RawValue::Other => values[k] == IrValue::Other,
        RawValue::Missing => values[k] == IrValue::Other,
    }
}

/// The table `values` holds, position by position, the values of the handles
/// `handles`, and no handle stands at two positions.
pub open spec fn table_matches(
    fd: koopa::ir::FunctionData,
    handles: Seq<koopa::ir::Value>,
    values: Seq<IrValue>,
) -> bool {
    &&& handles.len() == values.len()
    &&& handles.no_duplicates()
    &&& forall|k: int| 0 <= k < values.len() ==> #[trigger] value_matches(fd, handles, values, k)
}

/// The instructions `insts` are positions of the table at which the handles
/// `layout` stand, one for one and in order.
pub open spec fn layout_matches(
    handles: Seq<koopa::ir::Value>,
    layout: Seq<koopa::ir::Value>,
    insts: Seq<usize>,
) -> bool {
    &&& insts.len() == layout.len()
    &&& forall|i: int|
        0 <= i < insts.len() ==> #[trigger] insts[i] < handles.len() && handles[insts[i] as int]
            == layout[i]
}

/// `f` is the function `fd` with positions for handles, `handles[k]` being
/// the handle of the value at position `k`.
pub open spec fn represents(
    fd: koopa::ir::FunctionData,
    f: IrFunction,
    handles: Seq<koopa::ir::Value>,
) -> bool {
    &&& f.name@ == name_of(fd)
    &&& table_matches(fd, handles, f.values@)
    &&& layout_matches(handles, layout_handles(fd), f.insts@)
}

/// `f` is the function `fd` with positions for handles.
pub open spec fn represented(fd: koopa::ir::FunctionData, f: IrFunction) -> bool {
    exists|handles: Seq<koopa::ir::Value>| represents(fd, f, handles)
}

/// The operands under the value `v` are nested at most `depth` deep.
pub open spec fn nested_within(fd: koopa::ir::FunctionData, v: koopa::ir::Value, depth: nat)
    -> bool
    decreases depth,
{
    match kind_of(fd, v) {
        RawValue::Binary(b) => {
            &&& depth > 0
            &&& nested_within(fd, operands_of(b).0, (depth - 1) as nat)
            &&& nested_within(fd, operands_of(b).1, (depth - 1) as nat)
        },
        RawValue::Return(Some(x)) => depth > 0 && nested_within(fd, x, (depth - 1) as nat),
        _ => true,
    }
}

/// Under no instruction of the function are operands nested more deeply
/// than the function has values.
pub open spec fn readable(fd: koopa::ir::FunctionData) -> bool {
    forall|i: int|
        0 <= i < layout_handles(fd).len() ==> nested_within(
            fd,
            #[trigger] layout_handles(fd)[i],
            count_of(fd) as nat,
        )
}

/// A table as the reader builds it: the handles met so far and, position by
/// position, their values.
pub struct Table {
    pub handles: Seq<koopa::ir::Value>,
    pub values: Seq<IrValue>,
}

/// The position at which the handle `h` stands.
pub open spec fn position_of(handles: Seq<koopa::ir::Value>, h: koopa::ir::Value) -> int {
    choose|k: int| 0 <= k < handles.len() && handles[k] == h
}

/// The table with `value` appended as the value of `h`, and the position
/// that it got.
pub open spec fn place(t: Table, h: koopa::ir::Value, value: IrValue) -> (Table, int) {
    (
        Table { handles: t.handles.push(h), values: t.values.push(value) },
        t.handles.len() as int,
    )
}

/// The table after `h` has got its position, and that position. A handle
/// that stands in the table keeps its position. A new one has its operands
/// placed first, the left before the right, and is then appended. Operands
/// are followed `depth` deep.
pub open spec fn placed_value(
    fd: koopa::ir::FunctionData,
    h: koopa::ir::Value,
    t: Table,
    depth: nat,
) -> Result<(Table, int), ReadError>
    decreases depth,
{
    if t.handles.contains(h) {
        Ok((t, position_of(t.handles, h)))
    } else {
        match kind_of(fd, h) {
            RawValue::Integer(n) => Ok(place(t, h, IrValue::Integer(n))),
            RawValue::Binary(b) => if depth == 0 {
                Err(ReadError::TooDeep)
            } else {
                match placed_value(fd, operands_of(b).0, t, (depth - 1) as nat) {
                    Err(e) => Err(e),
                    Ok((t1, l)) => match placed_value(
                        fd,
                        operands_of(b).1,
                        t1,
                        (depth - 1) as nat,
                    ) {
                        Err(e) => Err(e),
                        Ok((t2, r)) => if t2.handles.contains(h) {
                            Ok((t2, position_of(t2.handles, h)))
                        } else {
                            Ok(
                                place(
                                    t2,
                                    h,
                                    IrValue::Binary(operator_of(b), l as usize, r as usize),
                                ),
                            )
                        },
                    },
                }
            },
            RawValue::Return(None) => Ok(place(t, h, IrValue::Return(None))),
            RawValue::Return(Some(x)) => if depth == 0 {
                Err(ReadError::TooDeep)
            } else {
                match placed_value(fd, x, t, (depth - 1) as nat) {
                    Err(e) => Err(e),
                    Ok((t1, i)) => if t1.handles.contains(h) {
                        Ok((t1, position_of(t1.handles, h)))
                    } else {
                        Ok(place(t1, h, IrValue::Return(Some(i as usize))))
                    },
                }
            },
            RawValue::Other => Ok(place(t, h, IrValue::Other)),
            RawValue::Missing => Ok(place(t, h, IrValue::Other)),
        }
    }
}

/// The table after the handles of a layout have got their positions, one
/// after the other from an empty table, and those positions in order. The
/// first failure is the failure of the whole.
pub open spec fn placed_layout(
    fd: koopa::ir::FunctionData,
    layout: Seq<koopa::ir::Value>,
    depth: nat,
) -> Result<(Table, Seq<usize>), ReadError>
    decreases layout.len(),
{
    if layout.len() == 0 {
        Ok((Table { handles: Seq::empty(), values: Seq::empty() }, Seq::empty()))
    } else {
        match placed_layout(fd, layout.drop_last(), depth) {
            Err(e) => Err(e),
            Ok((t, insts)) => match placed_value(fd, layout.last(), t, depth) {
                Err(e) => Err(e),
                Ok((t2, k)) => Ok((t2, insts.push(k as usize))),
            },
        }
    }
}

/// `res` is what reading the function `fd` gives: its name, and the table
/// and the positions that its layout gets when operands are followed as deep
/// as the function has values; or the failure to place them.
pub open spec fn function_read(fd: koopa::ir::FunctionData, res: Result<IrFunction, ReadError>)
    -> bool {
    match placed_layout(fd, layout_handles(fd), count_of(fd) as nat) {
        Ok((t, insts)) => {
            &&& res is Ok
            &&& res->Ok_0.name@ == name_of(fd)
            &&& res->Ok_0.values@ == t.values
            &&& res->Ok_0.insts@ == insts
            &&& represents(fd, res->Ok_0, t.handles)
        },
        Err(e) => res is Err && res->Err_0 == e,
    }
}

/// If placing a prefix of a layout fails, placing the whole layout fails in
/// the same way.
pub proof fn lemma_placing_failure_stays(
    fd: koopa::ir::FunctionData,
    prefix: Seq<koopa::ir::Value>,
    layout: Seq<koopa::ir::Value>,
    depth: nat,
)
    requires
        prefix.len() <= layout.len(),
        prefix =~= layout.take(prefix.len() as int),
    ensures
        placed_layout(fd, prefix, depth) is Err ==> placed_layout(fd, layout, depth)
            == placed_layout(fd, prefix, depth),
    decreases layout.len(),
{
    if prefix.len() < layout.len() {
        assert(layout.drop_last().take(prefix.len() as int) =~= prefix);
        lemma_placing_failure_stays(fd, prefix, layout.drop_last(), depth);
    } else {
        assert(prefix =~= layout);
    }
}

/// The position of the handle `h` among those met so far, if it was met.
fn find_value(seen: &Vec<koopa::ir::Value>, h: &koopa::ir::Value) -> (r: Option<usize>)
    ensures
        match r {
            Some(k) => k < seen@.len() && seen@[k as int] == *h,
            None => !seen@.contains(*h),
        },
{
    let mut k: usize = 0;
    while k < seen.len()
        invariant
            k <= seen.len(),
            forall|j: int| 0 <= j < k ==> seen@[j] != *h,
        decreases seen.len() - k,
    {
        if same_value(&seen[k], h) {
            return Some(k);
        }
        k += 1;
    }
    None
}

/// Appends `value` to the table as the value of the handle `h` and returns
/// its position.
fn add_value(
    fd: &koopa::ir::FunctionData,
    values: &mut Vec<IrValue>,
    seen: &mut Vec<koopa::ir::Value>,
    h: koopa::ir::Value,
    value: IrValue,
) -> (k: usize)
    requires
        table_matches(*fd, old(seen)@, old(values)@),
        !old(seen)@.contains(h),
        value_matches(*fd, old(seen)@.push(h), old(values)@.push(value), old(values)@.len() as int),
    ensures
        table_matches(*fd, final(seen)@, final(values)@),
        final(seen)@ == old(seen)@.push(h),
        final(values)@ == old(values)@.push(value),
        k == old(values)@.len(),
{
    let k = values.len();
    values.push(value);
    seen.push(h);
    proof {
        assert forall|j: int| 0 <= j < values@.len() implies #[trigger] value_matches(
            *fd,
            seen@,
            values@,
            j,
        ) by {
            if j < k {
                assert(value_matches(*fd, old(seen)@, old(values)@, j));
            }
        }
        assert forall|i: int, j: int| 0 <= i < seen@.len() && 0 <= j < seen@.len() && i != j implies seen@[i] != seen@[j] by {
            if i == k {
                assert(old(seen)@[j] == seen@[j]);
            } else if j == k {
                assert(old(seen)@[i] == seen@[i]);
            }
        }
    }
    k
}

/// The position in the table of the value with handle `h`. A handle met
/// before keeps its position. A new one has its operands placed first, the
/// left before the right, and is then appended. `depth` bounds the nesting
/// that is followed.
fn read_value(
    fd: &koopa::ir::FunctionData,
    h: koopa::ir::Value,
    values: &mut Vec<IrValue>,
    seen: &mut Vec<koopa::ir::Value>,
    depth: usize,
) -> (res: Result<usize, ReadError>)
    requires
        table_matches(*fd, old(seen)@, old(values)@),
    ensures
        table_matches(*fd, final(seen)@, final(values)@),
        old(seen)@.len() <= final(seen)@.len(),
        final(seen)@.take(old(seen)@.len() as int) == old(seen)@,
        res matches Ok(k) ==> k < final(seen)@.len() && final(seen)@[k as int] == h,
        res matches Err(e) ==> e == ReadError::TooDeep,
        nested_within(*fd, h, depth as nat) ==> res is Ok,
        match placed_value(
            *fd,
            h,
            Table { handles: old(seen)@, values: old(values)@ },
            depth as nat,
        ) {
            Ok((t, k)) => res == Ok::<usize, ReadError>(k as usize) && final(seen)@ == t.handles
                && final(values)@ == t.values,
            Err(e) => res == Err::<usize, ReadError>(e),
        },
    decreases depth,
{
    assert(seen@.take(seen@.len() as int) =~= seen@);
    match find_value(seen, &h) {
        Some(k) => {
            assert(position_of(seen@, h) == k);
            return Ok(k);
        },
        None => {},
    }
    match value_kind(fd, h) {
        RawValue::Integer(n) => Ok(add_value(fd, values, seen, h, IrValue::Integer(n))),
        RawValue::Binary(b) => {
            if depth == 0 {
                return Err(ReadError::TooDeep);
            }
            let (lh, rh) = binary_operands(&b);
            let l = match read_value(fd, lh, values, seen, depth - 1) {
                Ok(l) => l,
                Err(e) => {
                    assert(seen@.take(old(seen)@.len() as int) =~= old(seen)@);
                    return Err(e);
                },
            };
            let ghost mid = seen@;
            let r = match read_value(fd, rh, values, seen, depth - 1) {
                Ok(r) => r,
                Err(e) => {
                    assert(seen@.take(old(seen)@.len() as int) =~= mid.take(
                        old(seen)@.len() as int,
                    ));
                    return Err(e);
                },
            };
            assert(seen@.take(old(seen)@.len() as int) =~= mid.take(old(seen)@.len() as int));
            assert(seen@[l as int] == mid[l as int]);
            // An operand that led back to `h` would have placed it already.
            match find_value(seen, &h) {
                Some(k) => {
                    assert(position_of(seen@, h) == k);
                    return Ok(k);
                },
                None => {},
            }
            let k = add_value(fd, values, seen, h, IrValue::Binary(binary_op(&b), l, r));
            assert(seen@.take(old(seen)@.len() as int) =~= old(seen)@);
            Ok(k)
        },
        RawValue::Return(None) => Ok(add_value(fd, values, seen, h, IrValue::Return(None))),
        RawValue::Return(Some(xh)) => {
            if depth == 0 {
                return Err(ReadError::TooDeep);
            }
            let x = match read_value(fd, xh, values, seen, depth - 1) {
                Ok(x) => x,
                Err(e) => {
                    return Err(e);
                },
            };
            match find_value(seen, &h) {
                Some(k) => {
                    assert(position_of(seen@, h) == k);
                    return Ok(k);
                },
                None => {},
            }
            let k = add_value(fd, values, seen, h, IrValue::Return(Some(x)));
            assert(seen@.take(old(seen)@.len() as int) =~= old(seen)@);
            Ok(k)
        },
        RawValue::Other => Ok(add_value(fd, values, seen, h, IrValue::Other)),
        RawValue::Missing => Ok(add_value(fd, values, seen, h, IrValue::Other)),
    }
}

/// Positions that match a layout still match it when the table has grown.
proof fn lemma_layout_kept(
    before: Seq<koopa::ir::Value>,
    after: Seq<koopa::ir::Value>,
    layout: Seq<koopa::ir::Value>,
    insts: Seq<usize>,
)
    requires
        layout_matches(before, layout, insts),
        before.len() <= after.len(),
        after.take(before.len() as int) == before,
    ensures
        layout_matches(after, layout, insts),
{
    assert forall|i: int| 0 <= i < insts.len() implies #[trigger] insts[i] < after.len()
        && after[insts[i] as int] == layout[i] by {
        assert(before[insts[i] as int] == after.take(before.len() as int)[insts[i] as int]);
    }
}

/// Reads one function: its name, and its instructions block by block in
/// layout order, each with the values it needs. The outcome is the function
/// with positions for handles; the only failure is nesting deeper than the
/// function has values.
pub fn read_function(fd: &koopa::ir::FunctionData) -> (res: Result<IrFunction, ReadError>)
    ensures
        function_read(*fd, res),
        res matches Ok(f) ==> represented(*fd, f),
        res matches Err(e) ==> e == ReadError::TooDeep,
        readable(*fd) ==> res is Ok,
{
    let mut values: Vec<IrValue> = Vec::new();
    let mut seen: Vec<koopa::ir::Value> = Vec::new();
    let mut insts: Vec<usize> = Vec::new();
    let blocks = function_blocks(fd);
    let depth = value_count(fd);
    let ghost all = blocks_of(*fd);
    let mut i: usize = 0;
    assert(all.take(0) =~= Seq::<Seq<koopa::ir::Value>>::empty());
    while i < blocks.len()
        invariant
            i <= blocks.len(),
            all == blocks_of(*fd),
            depth == count_of(*fd),
            blocks@.len() == all.len(),
            forall|j: int| 0 <= j < blocks@.len() ==> (#[trigger] blocks@[j])@ == all[j],
            table_matches(*fd, seen@, values@),
            layout_matches(seen@, block_handles(all.take(i as int)), insts@),
            placed_layout(*fd, block_handles(all.take(i as int)), depth as nat) == Ok::<
                (Table, Seq<usize>),
                ReadError,
            >((Table { handles: seen@, values: values@ }, insts@)),
        decreases blocks.len() - i,
    {
        let handles = &blocks[i];
        let ghost done = block_handles(all.take(i as int));
        let mut k: usize = 0;
        assert(done + handles@.take(0) =~= done);
        while k < handles.len()
            invariant
                k <= handles.len(),
                i < blocks.len(),
                all == blocks_of(*fd),
                depth == count_of(*fd),
                blocks@.len() == all.len(),
                handles@ == all[i as int],
                done == block_handles(all.take(i as int)),
                table_matches(*fd, seen@, values@),
                layout_matches(seen@, done + handles@.take(k as int), insts@),
                placed_layout(*fd, done + handles@.take(k as int), depth as nat) == Ok::<
                    (Table, Seq<usize>),
                    ReadError,
                >((Table { handles: seen@, values: values@ }, insts@)),
            decreases handles.len() - k,
        {
            let ghost before = seen@;
            let ghost target = done + handles@.take(k as int);
            let ghost next = target.push(handles@[k as int]);
            proof {
                lemma_layout_index(all, i as int, k as int);
                assert(next.drop_last() =~= target);
                assert(done + handles@.take(k + 1) =~= next);
                lemma_layout_prefix(all, i as int, k + 1);
            }
            match read_value(fd, handles[k], &mut values, &mut seen, depth) {
                Ok(v) => {
                    proof {
                        lemma_layout_kept(before, seen@, target, insts@);
                    }
                    insts.push(v);
                },
                Err(e) => {
                    proof {
                        let at = done.len() + k;
                        assert(layout_handles(*fd)[at] == handles@[k as int]);
                        assert(!nested_within(*fd, layout_handles(*fd)[at], depth as nat));
                        lemma_placing_failure_stays(*fd, next, layout_handles(*fd), depth as nat);
                    }
                    return Err(e);
                },
            }
            k += 1;
        }
        proof {
            assert(handles@.take(k as int) =~= handles@);
            assert(all.take(i + 1).drop_last() =~= all.take(i as int));
            assert(all.take(i + 1).last() == all[i as int]);
        }
        i += 1;
    }
    assert(all.take(i as int) =~= all);
    let f = IrFunction { name: function_name(fd), values, insts };
    assert(represents(*fd, f, seen@));
    Ok(f)
}

/// The handle at position `k` of block `i` is a handle of the layout.
proof fn lemma_layout_index(blocks: Seq<Seq<koopa::ir::Value>>, i: int, k: int)
    requires
        0 <= i < blocks.len(),
        0 <= k < blocks[i].len(),
    ensures
        block_handles(blocks.take(i)).len() + k < block_handles(blocks).len(),
        block_handles(blocks)[block_handles(blocks.take(i)).len() + k] == blocks[i][k],
    decreases blocks.len(),
{
    if i == blocks.len() - 1 {
        assert(blocks.take(i) =~= blocks.drop_last());
    } else {
        assert(blocks.drop_last().take(i) =~= blocks.take(i));
        lemma_layout_index(blocks.drop_last(), i, k);
    }
}

/// The handles of the first `i` blocks and the first `k` of block `i` are
/// the first handles of the layout.
proof fn lemma_layout_prefix(blocks: Seq<Seq<koopa::ir::Value>>, i: int, k: int)
    requires
        0 <= i < blocks.len(),
        0 <= k <= blocks[i].len(),
    ensures
        block_handles(blocks.take(i)).len() + k <= block_handles(blocks).len(),
        block_handles(blocks).take(block_handles(blocks.take(i)).len() + k) =~= block_handles(
            blocks.take(i),
        ) + blocks[i].take(k),
    decreases blocks.len(),
{
    if i == blocks.len() - 1 {
        assert(blocks.take(i) =~= blocks.drop_last());
    } else {
        assert(blocks.drop_last().take(i) =~= blocks.take(i));
        lemma_layout_prefix(blocks.drop_last(), i, k);
    }
}

/// The program holds data for every function of its layout.
pub open spec fn program_complete(p: koopa::ir::Program) -> bool {
    forall|i: int|
        0 <= i < function_layout(p).len() ==> function_of(p, #[trigger] function_layout(p)[i])
            is Some
}

/// The program is complete and each of its functions is readable.
pub open spec fn program_readable(p: koopa::ir::Program) -> bool {
    forall|i: int|
        0 <= i < function_layout(p).len() ==> {
            &&& function_of(p, #[trigger] function_layout(p)[i]) is Some
            &&& readable(function_of(p, function_layout(p)[i])->0)
        }
}

/// The program holds data for the function with handle `h`, and `f` is what
/// reading that function gives.
pub open spec fn function_represented(p: koopa::ir::Program, h: koopa::ir::Function, f: IrFunction)
    -> bool {
    function_of(p, h) is Some && function_read(
        function_of(p, h)->0,
        Ok::<IrFunction, ReadError>(f),
    )
}

/// The failure of the first function of a layout that cannot be read, if
/// there is one: the program holds no data for it, or its values cannot be
/// placed.
pub open spec fn first_failure(p: koopa::ir::Program, layout: Seq<koopa::ir::Function>) -> Option<
    ReadError,
>
    decreases layout.len(),
{
    if layout.len() == 0 {
        None
    } else {
        match first_failure(p, layout.drop_last()) {
            Some(e) => Some(e),
            None => match function_of(p, layout.last()) {
                None => Some(ReadError::MissingFunction),
                Some(fd) => match placed_layout(fd, layout_handles(fd), count_of(fd) as nat) {
                    Err(e) => Some(e),
                    Ok(_) => None,
                },
            },
        }
    }
}

/// If reading the first functions of a layout fails, reading all of them
/// fails in the same way.
pub proof fn lemma_first_failure_stays(
    p: koopa::ir::Program,
    prefix: Seq<koopa::ir::Function>,
    layout: Seq<koopa::ir::Function>,
)
    requires
        prefix.len() <= layout.len(),
        prefix =~= layout.take(prefix.len() as int),
    ensures
        first_failure(p, prefix) is Some ==> first_failure(p, layout) == first_failure(p, prefix),
    decreases layout.len(),
{
    if prefix.len() < layout.len() {
        assert(layout.drop_last().take(prefix.len() as int) =~= prefix);
        lemma_first_failure_stays(p, prefix, layout.drop_last());
    } else {
        assert(prefix =~= layout);
    }
}

/// `m` is the program `p`: function by function in layout order, each as
/// reading it gives it.
pub open spec fn program_represented(p: koopa::ir::Program, m: IrProgram) -> bool {
    &&& m.funcs@.len() == function_layout(p).len()
    &&& forall|i: int|
        0 <= i < m.funcs@.len() ==> #[trigger] function_represented(
            p,
            function_layout(p)[i],
            m.funcs@[i],
        )
}

/// A function with positions for handles is ordered: the positions of its
/// operands stand before their users.
pub proof fn lemma_represented_ordered(fd: koopa::ir::FunctionData, f: IrFunction)
    requires
        represented(fd, f),
    ensures
        f.ordered(),
{
    let handles = choose|handles: Seq<koopa::ir::Value>| represents(fd, f, handles);
    assert forall|k: int| 0 <= k < f.values@.len() implies #[trigger] operands_before(
        f.values@,
        k,
    ) by {
        assert(value_matches(fd, handles, f.values@, k));
    }
}

/// The functions of a program that is represented are ordered.
pub proof fn lemma_program_ordered(p: koopa::ir::Program, m: IrProgram)
    requires
        program_represented(p, m),
    ensures
        m.ordered(),
{
    assert forall|i: int| 0 <= i < m.funcs@.len() implies (#[trigger] m.funcs@[i]).ordered() by {
        assert(function_represented(p, function_layout(p)[i], m.funcs@[i]));
        let fd = function_of(p, function_layout(p)[i])->0;
        let t = placed_layout(fd, layout_handles(fd), count_of(fd) as nat)->Ok_0.0;
        assert(represents(fd, m.funcs@[i], t.handles));
        lemma_represented_ordered(fd, m.funcs@[i]);
    }
}

/// `res` is what reading the program `p` gives: the failure of the first
/// function that cannot be read, or else every function as reading it gives
/// it. A failure is for a function without data or for one that is not
/// readable, and there is none where the program is readable.
pub open spec fn program_read(p: koopa::ir::Program, res: Result<IrProgram, ReadError>) -> bool {
    &&& match first_failure(p, function_layout(p)) {
        Some(e) => res is Err && res->Err_0 == e,
        None => res is Ok && program_represented(p, res->Ok_0),
    }
    &&& res matches Err(e) ==> {
        ||| e == ReadError::MissingFunction && !program_complete(p)
        ||| e == ReadError::TooDeep && !program_readable(p)
    }
    &&& program_readable(p) ==> res is Ok
}

/// `res` is an outcome of reading what the parser handed back: the text is
/// refused where the parser refused it, and what it built is read.
pub open spec fn parsed_read(
    parsed: Result<koopa::ir::Program, koopa::front::span::Error>,
    res: Result<IrProgram, ReadError>,
) -> bool {
    match parsed {
        Ok(p) => program_read(p, res),
        Err(_) => res == Err::<IrProgram, ReadError>(ReadError::InvalidText),
    }
}

/// Reads a program: its functions in layout order.
pub fn read_program(p: &koopa::ir::Program) -> (res: Result<IrProgram, ReadError>)
    ensures
        program_read(*p, res),
{
    let handles = function_handles(p);
    let mut funcs: Vec<IrFunction> = Vec::new();
    let mut i: usize = 0;
    while i < handles.len()
        invariant
            i <= handles.len(),
            handles@ == function_layout(*p),
            funcs@.len() == i,
            first_failure(*p, function_layout(*p).take(i as int)) is None,
            forall|j: int|
                0 <= j < i ==> #[trigger] function_represented(
                    *p,
                    function_layout(*p)[j],
                    funcs@[j],
                ),
        decreases handles.len() - i,
    {
        proof {
            let next = function_layout(*p).take(i + 1);
            assert(next.drop_last() =~= function_layout(*p).take(i as int));
            assert(next.last() == function_layout(*p)[i as int]);
            lemma_first_failure_stays(*p, next, function_layout(*p));
        }
        let fd = match function_data(p, handles[i]) {
            Some(fd) => fd,
            None => {
                assert(function_of(*p, function_layout(*p)[i as int]) is None);
                return Err(ReadError::MissingFunction);
            },
        };
        assert(function_of(*p, function_layout(*p)[i as int]) == Some(*fd));
        let ghost before = funcs@;
        match read_function(fd) {
            Ok(f) => {
                funcs.push(f);
                assert forall|j: int| 0 <= j < i + 1 implies #[trigger] function_represented(
                    *p,
                    function_layout(*p)[j],
                    funcs@[j],
                ) by {
                    if j < i {
                        assert(function_represented(*p, function_layout(*p)[j], before[j]));
                    }
                }
            },
            Err(e) => {
                return Err(e);
            },
        }
        i += 1;
    }
    assert(function_layout(*p).take(i as int) =~= function_layout(*p));
    Ok(IrProgram { funcs })
}

/// Reads what the parser handed back.
pub fn read_parsed(parsed: Result<koopa::ir::Program, koopa::front::span::Error>) -> (res: Result<
    IrProgram,
    ReadError,
>)
    ensures
        parsed_read(parsed, res),
{
    match parsed {
        Ok(p) => read_program(&p),
        Err(_) => Err(ReadError::InvalidText),
    }
}

/// Parses the IR text of a function with a plain identifier and reads the
/// program it describes. What comes back is what reading gives for
/// something that the parser handed back; where it is a program, it is an
/// ordered one.
pub fn read_ir_text(text: &str) -> (res: Result<IrProgram, ReadError>)
    requires
        emitted_text(text@),
    ensures
        exists|parsed: Result<koopa::ir::Program, koopa::front::span::Error>|
            parsed_read(parsed, res),
        res matches Ok(m) ==> m.ordered(),
{
    let parsed = parse_program(text);
    proof {
        if parsed is Ok {
            let p = parsed->Ok_0;
            assert forall|m: IrProgram| program_represented(p, m) implies m.ordered() by {
                lemma_program_ordered(p, m);
            }
        }
    }
    let res = read_parsed(parsed);
    assert(parsed_read(parsed, res));
    res
}

} // verus!
