//! The scopes of a compilation unit (functions, inlined calls and blocks, with
//! their variables), read from its entries, and the cache built from units.
use crate::die::{
    attr_constant, attr_exprloc, attr_ref, attr_str, attr_udata, find_attr, get_addr, get_constant,
    get_exprloc, get_ref, get_str, get_udata, last_attr, attr_addr, AttrKind, AttrValue, DieAttr,
    DieRecord, UnitRecord, DW_AT_ABSTRACT_ORIGIN, DW_AT_CALL_FILE, DW_AT_CALL_LINE, DW_AT_DECL_FILE,
    DW_AT_DECL_LINE, DW_AT_FRAME_BASE, DW_AT_HIGH_PC, DW_AT_LINKAGE_NAME, DW_AT_LOCATION,
    DW_AT_LOW_PC, DW_AT_NAME, DW_AT_RANGES, DW_AT_TYPE, DW_TAG_FORMAL_PARAMETER,
    DW_TAG_INLINED_SUBROUTINE, DW_TAG_LEXICAL_BLOCK, DW_TAG_SUBPROGRAM, DW_TAG_VARIABLE,
};
use crate::dwarf::{
    abi_of, Abi, ObjectFormat, AddressRange, DebugVariable, DebuggerMetadataCache, Endianness, ExecutionScope, ScopeCacheNode,
    SectionBases, TypeCacheNode, UniqueFileId,
};
use crate::dwarf_types::{die_at, die_type, read_die_type, shape, subtree_end, subtree_end_of, TypeShape};
use vstd::prelude::*;

verus! {

/// A variable as (name, type offset, location program, declaration line).
pub type VarShape = (Seq<char>, usize, Seq<u8>, u32);

/// A variable as plain values: name, type offset, location and declaration line.
pub open spec fn var_shape(v: DebugVariable) -> VarShape {
    (v.name@, v.target_type_offset, v.location@, v.decl_line)
}

/// Each variable of a list as plain values.
pub open spec fn vars_shape(v: Seq<DebugVariable>) -> Seq<VarShape> {
    v.map_values(|x: DebugVariable| var_shape(x))
}

/// The variable (or parameter) an entry declares, when it has a name, a
/// type, a location and a `Udata` declaration line (cut to 32 bits).
pub open spec fn variable_of(d: DieRecord) -> Option<VarShape> {
    let a = d.attrs@;
    match (
        attr_str(a, DW_AT_NAME),
        attr_ref(a, DW_AT_TYPE),
        attr_exprloc(a, DW_AT_LOCATION),
        attr_udata(a, DW_AT_DECL_LINE),
    ) {
        (Some(n), Some(t), Some(l), Some(line)) => Some((n, t, l, line as u32)),
        _ => None,
    }
}

/// What kind of scope, with strings and vectors seen as sequences.
pub enum KindShape {
    Function {
        display_name: Seq<char>,
        linkage_name: Seq<char>,
        bytes: Option<Seq<u8>>,
        decl_file_id: UniqueFileId,
        decl_line: u32,
    },
    Inlined {
        name: Seq<char>,
        unit_offset: usize,
        call_file_idx: u64,
        decl_file_idx: u64,
        call_line: u32,
        decl_line: u32,
    },
    LexicalBlock,
}

/// The kind of a scope as plain values.
pub open spec fn kind_shape(s: ExecutionScope) -> KindShape {
    match s {
        ExecutionScope::Function { display_name, linkage_name, bytes, decl_file_id, decl_line } => KindShape::Function {
            display_name: display_name@,
            linkage_name: linkage_name@,
            bytes: match bytes {
                Some(b) => Some(b@),
                None => None,
            },
            decl_file_id,
            decl_line,
        },
        ExecutionScope::Inlined { name, unit_offset, call_file_idx, decl_file_idx, call_line, decl_line } => KindShape::Inlined {
            name: name@,
            unit_offset,
            call_file_idx,
            decl_file_idx,
            call_line,
            decl_line,
        },
        ExecutionScope::LexicalBlock => KindShape::LexicalBlock,
    }
}

/// A scope node as plain values, with the nodes nested in it.
pub struct NodeShape {
    pub kind: KindShape,
    pub offset: usize,
    pub ranges: Seq<AddressRange>,
    pub variables: Seq<VarShape>,
    pub args: Seq<VarShape>,
    pub children: Seq<NodeShape>,
}

/// A scope as plain values, the scopes nested in it in full.
pub open spec fn node_shape(n: ScopeCacheNode) -> NodeShape
    decreases n, 0int,
{
    NodeShape {
        kind: kind_shape(n.scope),
        offset: n.offset,
        ranges: n.ranges@,
        variables: vars_shape(n.variables@),
        args: vars_shape(n.args@),
        children: children_shape(n.children@, n.children@.len() as int),
    }
}

/// The first `k` nested scopes as plain values.
pub open spec fn children_shape(v: Seq<ScopeCacheNode>, k: int) -> Seq<NodeShape>
    decreases v, k,
{
    if k <= 0 || k > v.len() {
        Seq::empty()
    } else {
        children_shape(v, k - 1).push(node_shape(v[k - 1]))
    }
}

/// Each scope of a list as plain values.
pub open spec fn nodes_shape(v: Seq<ScopeCacheNode>) -> Seq<NodeShape> {
    v.map_values(|n: ScopeCacheNode| node_shape(n))
}

/// The value, or 0 where there is none.
pub open spec fn or_zero(x: Option<u64>) -> u64 {
    match x {
        Some(v) => v,
        None => 0,
    }
}

/// The end of a scope's address range: an address, or a size added to `low`
/// (none where the sum does not fit).
pub open spec fn high_pc_of(a: Seq<DieAttr>, low: u64) -> Option<u64> {
    match last_attr(a, DW_AT_HIGH_PC, AttrKind::Any) {
        Some(AttrValue::Addr(x)) => Some(x),
        Some(AttrValue::Udata(size)) => if low + size <= u64::MAX {
            Some((low + size) as u64)
        } else {
            None
        },
        _ => None,
    }
}

/// The kind and addresses of the scope an entry opens.
pub struct ScopeHead {
    pub kind: KindShape,
    pub ranges: Seq<AddressRange>,
}

/// The single address range of an entry: its low address and the end its
/// high-address attribute gives (none where either is missing).
pub open spec fn single_range(a: Seq<DieAttr>) -> Option<Seq<AddressRange>> {
    match attr_addr(a, DW_AT_LOW_PC) {
        None => None,
        Some(l) => match high_pc_of(a, l) {
            None => None,
            Some(h) => Some(seq![AddressRange { low_pc: l, high_pc: h }]),
        },
    }
}

/// The function scope a subprogram entry opens: one with a name, a linkage
/// name and an address range, whose low address is not 0.
pub open spec fn subprogram_head(dies: Seq<DieRecord>, unit_offset: usize, i: int) -> Option<ScopeHead> {
    let a = dies[i].attrs@;
    if attr_addr(a, DW_AT_LOW_PC) == Some(0u64) {
        None
    } else {
        match (single_range(a), attr_str(a, DW_AT_NAME), attr_str(a, DW_AT_LINKAGE_NAME)) {
            (Some(ranges), Some(n), Some(ln)) => Some(
                ScopeHead {
                    kind: KindShape::Function {
                        display_name: n,
                        linkage_name: ln,
                        bytes: attr_exprloc(a, DW_AT_FRAME_BASE),
                        decl_file_id: UniqueFileId {
                            offset: unit_offset,
                            file_idx: or_zero(attr_constant(a, DW_AT_DECL_FILE)),
                        },
                        decl_line: or_zero(attr_udata(a, DW_AT_DECL_LINE)) as u32,
                    },
                    ranges,
                },
            ),
            _ => None,
        }
    }
}

/// The scope an inlined call opens: one with an address range whose low
/// address is not 0, named and placed by the entry it is an instance of.
pub open spec fn inline_head(dies: Seq<DieRecord>, unit_offset: usize, i: int) -> Option<ScopeHead> {
    let a = dies[i].attrs@;
    if attr_addr(a, DW_AT_LOW_PC) == Some(0u64) {
        None
    } else {
        match single_range(a) {
            None => None,
            Some(ranges) => {
                let oa = match attr_ref(a, DW_AT_ABSTRACT_ORIGIN) {
                    Some(o) => match die_at(dies, o, 0) {
                        Some(j) => dies[j].attrs@,
                        None => Seq::empty(),
                    },
                    None => Seq::empty(),
                };
                Some(
                    ScopeHead {
                        kind: KindShape::Inlined {
                            name: match attr_str(oa, DW_AT_NAME) {
                                Some(n) => n,
                                None => Seq::empty(),
                            },
                            unit_offset,
                            call_file_idx: or_zero(attr_constant(a, DW_AT_CALL_FILE)),
                            decl_file_idx: or_zero(attr_constant(oa, DW_AT_DECL_FILE)),
                            call_line: or_zero(attr_udata(a, DW_AT_CALL_LINE)) as u32,
                            decl_line: or_zero(attr_udata(oa, DW_AT_DECL_LINE)) as u32,
                        },
                        ranges,
                    },
                )
            },
        }
    }
}

/// The scope a lexical block opens: one whose low address is not 0, with the
/// ranges of its range list, else its single address range.
pub open spec fn lexical_block_head(dies: Seq<DieRecord>, i: int) -> Option<ScopeHead> {
    let a = dies[i].attrs@;
    if attr_addr(a, DW_AT_LOW_PC) == Some(0u64) {
        None
    } else {
        match last_attr(a, DW_AT_RANGES, AttrKind::Ranges) {
            Some(AttrValue::Ranges(rs)) => Some(ScopeHead { kind: KindShape::LexicalBlock, ranges: rs@ }),
            Some(_) => None,
            None => match single_range(a) {
                Some(ranges) => Some(ScopeHead { kind: KindShape::LexicalBlock, ranges }),
                None => None,
            },
        }
    }
}

/// The scope entry `i` opens, if any: a function, an inlined call or a block,
/// by the entry's tag.
pub open spec fn scope_head(dies: Seq<DieRecord>, unit_offset: usize, i: int) -> Option<ScopeHead> {
    let tag = dies[i].tag;
    if tag == DW_TAG_SUBPROGRAM {
        subprogram_head(dies, unit_offset, i)
    } else if tag == DW_TAG_INLINED_SUBROUTINE {
        inline_head(dies, unit_offset, i)
    } else if tag == DW_TAG_LEXICAL_BLOCK {
        lexical_block_head(dies, i)
    } else {
        None
    }
}

/// What the entries `k..to` hold for the scope around them: its variables and
/// parameters, the scopes directly inside it, and every scope inside it in
/// the order they end (inner ones first).
pub struct ScanShape {
    pub vars: Seq<VarShape>,
    pub args: Seq<VarShape>,
    pub children: Seq<NodeShape>,
    pub scopes: Seq<NodeShape>,
}

/// What reading no entries gives.
pub open spec fn empty_shape() -> ScanShape {
    ScanShape { vars: Seq::empty(), args: Seq::empty(), children: Seq::empty(), scopes: Seq::empty() }
}

/// What reading two runs of entries one after the other gives.
pub open spec fn combine(a: ScanShape, b: ScanShape) -> ScanShape {
    ScanShape {
        vars: a.vars + b.vars,
        args: a.args + b.args,
        children: a.children + b.children,
        scopes: a.scopes + b.scopes,
    }
}

/// Where the subtree of scope entry `k` ends within `..to`.
pub open spec fn scope_end(dies: Seq<DieRecord>, k: int, to: int) -> int {
    let e = subtree_end(dies, k);
    if k < e && e <= to {
        e
    } else {
        to
    }
}

/// The entries `k..to`: a scope entry becomes a node holding what its subtree
/// holds; a variable or parameter entry outside nested scopes belongs to the
/// scope around.
pub open spec fn scan(dies: Seq<DieRecord>, unit_offset: usize, k: int, to: int) -> ScanShape
    decreases to - k,
{
    if k >= to || k < 0 || to > dies.len() {
        empty_shape()
    } else {
        match scope_head(dies, unit_offset, k) {
            Some(h) => {
                let e = scope_end(dies, k, to);
                let inner = scan(dies, unit_offset, k + 1, e);
                let node = NodeShape {
                    kind: h.kind,
                    offset: dies[k].offset,
                    ranges: h.ranges,
                    variables: inner.vars,
                    args: inner.args,
                    children: inner.children,
                };
                let rest = scan(dies, unit_offset, e, to);
                ScanShape {
                    vars: rest.vars,
                    args: rest.args,
                    children: seq![node] + rest.children,
                    scopes: inner.scopes + seq![node] + rest.scopes,
                }
            },
            None => {
                let rest = scan(dies, unit_offset, k + 1, to);
                let v = if dies[k].tag == DW_TAG_VARIABLE {
                    variable_of(dies[k])
                } else {
                    None
                };
                let p = if dies[k].tag == DW_TAG_FORMAL_PARAMETER {
                    variable_of(dies[k])
                } else {
                    None
                };
                ScanShape {
                    vars: match v {
                        Some(x) => seq![x] + rest.vars,
                        None => rest.vars,
                    },
                    args: match p {
                        Some(x) => seq![x] + rest.args,
                        None => rest.args,
                    },
                    children: rest.children,
                    scopes: rest.scopes,
                }
            },
        }
    }
}

} // verus!

verus! {

/// The variable entry `d` declares: its name, type, location program and
/// declaration line, all four of which it must have.
pub fn extract_variable(d: &DieRecord) -> (r: Option<DebugVariable>)
    ensures
        match variable_of(*d) {
            Some(v) => r matches Some(x) && var_shape(x) == v,
            None => r is None,
        },
{
    let a = &d.attrs;
    match (get_str(a, DW_AT_NAME), get_ref(a, DW_AT_TYPE), get_exprloc(a, DW_AT_LOCATION), get_udata(a, DW_AT_DECL_LINE)) {
        (Some(name), Some(target_type_offset), Some(location), Some(line)) => Some(
            DebugVariable {
                name,
                target_type_offset,
                location,
                decl_line: #[verifier::truncate] (line as u32),
            },
        ),
        _ => None,
    }
}

fn read_high_pc(a: &Vec<DieAttr>, low: u64) -> (r: Option<u64>)
    ensures
        r == high_pc_of(a@, low),
{
    match find_attr(a, DW_AT_HIGH_PC, AttrKind::Any) {
        Some(AttrValue::Addr(x)) => Some(*x),
        Some(AttrValue::Udata(size)) => low.checked_add(*size),
        _ => None,
    }
}

fn zero_or(x: Option<u64>) -> (r: u64)
    ensures
        r == or_zero(x),
{
    match x {
        Some(v) => v,
        None => 0,
    }
}

fn copy_ranges(rs: &Vec<AddressRange>) -> (r: Vec<AddressRange>)
    ensures
        r@ == rs@,
{
    let mut out: Vec<AddressRange> = Vec::new();
    let n = rs.len();
    let mut i: usize = 0;
    while i < n
        invariant
            n == rs@.len(),
            i <= n,
            out@ == rs@.take(i as int),
        decreases n - i,
    {
        out.push(rs[i]);
        assert(rs@.take(i + 1) =~= rs@.take(i as int).push(rs@[i as int]));
        i = i + 1;
    }
    assert(rs@.take(n as int) =~= rs@);
    out
}

/// The single address range of an entry with attributes `a`.
fn read_single_range(a: &Vec<DieAttr>) -> (r: Option<Vec<AddressRange>>)
    ensures
        match single_range(a@) {
            Some(rs) => r matches Some(x) && x@ == rs,
            None => r is None,
        },
{
    let l = match get_addr(a, DW_AT_LOW_PC) {
        Some(l) => l,
        None => return None,
    };
    let h = match read_high_pc(a, l) {
        Some(h) => h,
        None => return None,
    };
    let ranges = vec![AddressRange { low_pc: l, high_pc: h }];
    assert(ranges@ =~= seq![AddressRange { low_pc: l, high_pc: h }]);
    Some(ranges)
}

/// The function scope that the subprogram entry `i` opens, as its kind and
/// its address ranges: nothing without a name, a linkage name or an address
/// range, or where the low address is 0.
pub fn extract_subprogram_node(dies: &Vec<DieRecord>, unit_offset: usize, i: usize) -> (r: Option<(ExecutionScope, Vec<AddressRange>)>)
    requires
        i < dies@.len(),
    ensures
        match subprogram_head(dies@, unit_offset, i as int) {
            Some(h) => r matches Some(x) && kind_shape(x.0) == h.kind && x.1@ == h.ranges,
            None => r is None,
        },
{
    let a = &dies[i].attrs;
    if let Some(0u64) = get_addr(a, DW_AT_LOW_PC) {
        return None;
    }
    let ranges = match read_single_range(a) {
        Some(rs) => rs,
        None => return None,
    };
    match (get_str(a, DW_AT_NAME), get_str(a, DW_AT_LINKAGE_NAME)) {
        (Some(display_name), Some(linkage_name)) => {
            let decl_line = match get_udata(a, DW_AT_DECL_LINE) {
                Some(v) => #[verifier::truncate] (v as u32),
                None => 0u32,
            };
            Some(
                (
                    ExecutionScope::Function {
                        display_name,
                        linkage_name,
                        bytes: get_exprloc(a, DW_AT_FRAME_BASE),
                        decl_file_id: UniqueFileId {
                            offset: unit_offset,
                            file_idx: zero_or(get_constant(a, DW_AT_DECL_FILE)),
                        },
                        decl_line,
                    },
                    ranges,
                ),
            )
        },
        _ => None,
    }
}

/// The scope that the inlined-call entry `i` opens, as its kind and its
/// address ranges: named and placed by the entry it is an instance of;
/// nothing without an address range, or where the low address is 0.
pub fn extract_inline_node(dies: &Vec<DieRecord>, unit_offset: usize, i: usize) -> (r: Option<(ExecutionScope, Vec<AddressRange>)>)
    requires
        i < dies@.len(),
    ensures
        match inline_head(dies@, unit_offset, i as int) {
            Some(h) => r matches Some(x) && kind_shape(x.0) == h.kind && x.1@ == h.ranges,
            None => r is None,
        },
{
    let a = &dies[i].attrs;
    if let Some(0u64) = get_addr(a, DW_AT_LOW_PC) {
        return None;
    }
    let ranges = match read_single_range(a) {
        Some(rs) => rs,
        None => return None,
    };
    let empty: Vec<DieAttr> = Vec::new();
    let origin = match get_ref(a, DW_AT_ABSTRACT_ORIGIN) {
        Some(o) => crate::dwarf_types::die_index(dies, o),
        None => None,
    };
    let oa: &Vec<DieAttr> = match origin {
        Some(j) => &dies[j].attrs,
        None => &empty,
    };
    assert(empty@ =~= Seq::<DieAttr>::empty());
    let name = match get_str(oa, DW_AT_NAME) {
        Some(n) => n,
        None => String::new(),
    };
    let call_line = match get_udata(a, DW_AT_CALL_LINE) {
        Some(v) => #[verifier::truncate] (v as u32),
        None => 0u32,
    };
    let decl_line = match get_udata(oa, DW_AT_DECL_LINE) {
        Some(v) => #[verifier::truncate] (v as u32),
        None => 0u32,
    };
    Some(
        (
            ExecutionScope::Inlined {
                name,
                unit_offset,
                call_file_idx: zero_or(get_constant(a, DW_AT_CALL_FILE)),
                decl_file_idx: zero_or(get_constant(oa, DW_AT_DECL_FILE)),
                call_line,
                decl_line,
            },
            ranges,
        ),
    )
}

/// The scope that the lexical-block entry `i` opens, as its kind and its
/// address ranges: those of its range list, else its single address range;
/// nothing where the low address is 0.
pub fn extract_lexical_block_node(dies: &Vec<DieRecord>, i: usize) -> (r: Option<(ExecutionScope, Vec<AddressRange>)>)
    requires
        i < dies@.len(),
    ensures
        match lexical_block_head(dies@, i as int) {
            Some(h) => r matches Some(x) && kind_shape(x.0) == h.kind && x.1@ == h.ranges,
            None => r is None,
        },
{
    let a = &dies[i].attrs;
    if let Some(0u64) = get_addr(a, DW_AT_LOW_PC) {
        return None;
    }
    match find_attr(a, DW_AT_RANGES, AttrKind::Ranges) {
        Some(AttrValue::Ranges(rs)) => Some((ExecutionScope::LexicalBlock, copy_ranges(rs))),
        Some(_) => None,
        None => match read_single_range(a) {
            Some(ranges) => Some((ExecutionScope::LexicalBlock, ranges)),
            None => None,
        },
    }
}

/// The scope entry `i` opens, as its kind and its address ranges.
fn read_scope_head(dies: &Vec<DieRecord>, unit_offset: usize, i: usize) -> (r: Option<(ExecutionScope, Vec<AddressRange>)>)
    requires
        i < dies@.len(),
    ensures
        match scope_head(dies@, unit_offset, i as int) {
            Some(h) => r matches Some(x) && kind_shape(x.0) == h.kind && x.1@ == h.ranges,
            None => r is None,
        },
{
    let tag = dies[i].tag;
    if tag == DW_TAG_SUBPROGRAM {
        extract_subprogram_node(dies, unit_offset, i)
    } else if tag == DW_TAG_INLINED_SUBROUTINE {
        extract_inline_node(dies, unit_offset, i)
    } else if tag == DW_TAG_LEXICAL_BLOCK {
        extract_lexical_block_node(dies, i)
    } else {
        None
    }
}

fn dup_var(v: &DebugVariable) -> (r: DebugVariable)
    ensures
        var_shape(r) == var_shape(*v),
{
    let location = v.location.clone();
    assert(location@ =~= v.location@);
    DebugVariable {
        name: v.name.clone(),
        target_type_offset: v.target_type_offset,
        location,
        decl_line: v.decl_line,
    }
}

fn dup_vars(vs: &Vec<DebugVariable>) -> (r: Vec<DebugVariable>)
    ensures
        vars_shape(r@) == vars_shape(vs@),
{
    let mut out: Vec<DebugVariable> = Vec::new();
    let n = vs.len();
    let mut i: usize = 0;
    while i < n
        invariant
            n == vs@.len(),
            i <= n,
            out@.len() == i,
            forall|j: int| 0 <= j < i ==> var_shape(#[trigger] out@[j]) == var_shape(vs@[j]),
        decreases n - i,
    {
        let v = dup_var(&vs[i]);
        out.push(v);
        i = i + 1;
    }
    assert(vars_shape(out@) =~= vars_shape(vs@));
    out
}

fn dup_scope(s: &ExecutionScope) -> (r: ExecutionScope)
    ensures
        kind_shape(r) == kind_shape(*s),
{
    match s {
        ExecutionScope::Function { display_name, linkage_name, bytes, decl_file_id, decl_line } => {
            let bytes = match bytes {
                Some(b) => {
                    let c = b.clone();
                    assert(c@ =~= b@);
                    Some(c)
                },
                None => None,
            };
            ExecutionScope::Function {
                display_name: display_name.clone(),
                linkage_name: linkage_name.clone(),
                bytes,
                decl_file_id: *decl_file_id,
                decl_line: *decl_line,
            }
        },
        ExecutionScope::Inlined { name, unit_offset, call_file_idx, decl_file_idx, call_line, decl_line } => ExecutionScope::Inlined {
            name: name.clone(),
            unit_offset: *unit_offset,
            call_file_idx: *call_file_idx,
            decl_file_idx: *decl_file_idx,
            call_line: *call_line,
            decl_line: *decl_line,
        },
        ExecutionScope::LexicalBlock => ExecutionScope::LexicalBlock,
    }
}

impl ScopeCacheNode {
    /// A copy of the node and of the nodes nested in it.
    pub fn duplicate(&self) -> (r: Self)
        ensures
            node_shape(r) == node_shape(*self),
        decreases *self,
    {
        let mut children: Vec<ScopeCacheNode> = Vec::new();
        let n = self.children.len();
        let mut i: usize = 0;
        while i < n
            invariant
                n == self.children@.len(),
                i <= n,
                children@.len() == i,
                forall|j: int| 0 <= j < i ==> node_shape(#[trigger] children@[j]) == node_shape(self.children@[j]),
            decreases n - i,
        {
            assert(decreases_to!(*self => self.children@[i as int]));
            let c = self.children[i].duplicate();
            children.push(c);
            i = i + 1;
        }
        proof {
            lemma_children_shape(children@, n as int);
            lemma_children_shape(self.children@, n as int);
            assert(nodes_shape(children@.take(n as int)) =~= nodes_shape(self.children@.take(n as int)));
        }
        ScopeCacheNode {
            scope: dup_scope(&self.scope),
            offset: self.offset,
            variables: dup_vars(&self.variables),
            args: dup_vars(&self.args),
            ranges: copy_ranges(&self.ranges),
            children,
        }
    }
}

} // verus!

verus! {

/// The nested scopes as plain values are each scope's shape in turn.
proof fn lemma_children_shape(v: Seq<ScopeCacheNode>, k: int)
    requires
        0 <= k <= v.len(),
    ensures
        children_shape(v, k) == nodes_shape(v.take(k)),
    decreases k,
{
    if k > 0 {
        lemma_children_shape(v, k - 1);
        assert(v.take(k - 1) =~= v.take(k).drop_last());
    }
    assert(children_shape(v, k) =~= nodes_shape(v.take(k)));
}

proof fn lemma_nodes_push(v: Seq<ScopeCacheNode>, x: ScopeCacheNode)
    ensures
        nodes_shape(v.push(x)) == nodes_shape(v).push(node_shape(x)),
{
    assert(nodes_shape(v.push(x)) =~= nodes_shape(v).push(node_shape(x)));
}

proof fn lemma_vars_push(v: Seq<DebugVariable>, x: DebugVariable)
    ensures
        vars_shape(v.push(x)) == vars_shape(v).push(var_shape(x)),
{
    assert(vars_shape(v.push(x)) =~= vars_shape(v).push(var_shape(x)));
}

/// The scopes among the entries `from..to`: appends every scope node to `out`
/// in the order the scopes end, and returns the variables, parameters and
/// directly nested scope nodes of the scope around.
fn build_scopes(
    dies: &Vec<DieRecord>,
    unit_offset: usize,
    from: usize,
    to: usize,
    out: &mut Vec<ScopeCacheNode>,
) -> (r: (Vec<DebugVariable>, Vec<DebugVariable>, Vec<ScopeCacheNode>))
    requires
        from <= to <= dies@.len(),
    ensures
        ({
            let s = scan(dies@, unit_offset, from as int, to as int);
            &&& vars_shape(r.0@) == s.vars
            &&& vars_shape(r.1@) == s.args
            &&& nodes_shape(r.2@) == s.children
            &&& nodes_shape(final(out)@) == nodes_shape(old(out)@) + s.scopes
        }),
    decreases to - from,
{
    let ghost out0 = nodes_shape(out@);
    let ghost total = scan(dies@, unit_offset, from as int, to as int);
    let mut vars: Vec<DebugVariable> = Vec::new();
    let mut args: Vec<DebugVariable> = Vec::new();
    let mut children: Vec<ScopeCacheNode> = Vec::new();
    let ghost mut acc_scopes: Seq<NodeShape> = Seq::empty();
    let mut k = from;
    assert(vars_shape(vars@) =~= Seq::empty());
    assert(vars_shape(args@) =~= Seq::empty());
    assert(nodes_shape(children@) =~= Seq::empty());
    assert(combine(empty_shape(), total) =~= total);
    assert(out0 + acc_scopes =~= out0);
    while k < to
        invariant
            from <= k <= to <= dies@.len(),
            total == scan(dies@, unit_offset, from as int, to as int),
            total == combine(
                ScanShape {
                    vars: vars_shape(vars@),
                    args: vars_shape(args@),
                    children: nodes_shape(children@),
                    scopes: acc_scopes,
                },
                scan(dies@, unit_offset, k as int, to as int),
            ),
            nodes_shape(out@) == out0 + acc_scopes,
        decreases to - k,
    {
        let ghost before = scan(dies@, unit_offset, k as int, to as int);
        match read_scope_head(dies, unit_offset, k) {
            Some((scope, ranges)) => {
                let se = subtree_end_of(dies, k);
                let e = if se <= to {
                    se
                } else {
                    to
                };
                let ghost inner = scan(dies@, unit_offset, k + 1, e as int);
                let ghost rest = scan(dies@, unit_offset, e as int, to as int);
                let ghost mid = nodes_shape(out@);
                let (iv, ia, ic) = build_scopes(dies, unit_offset, k + 1, e, out);
                proof {
                    lemma_children_shape(ic@, ic@.len() as int);
                    assert(ic@.take(ic@.len() as int) =~= ic@);
                }
                let node = ScopeCacheNode {
                    scope,
                    offset: dies[k].offset,
                    variables: iv,
                    args: ia,
                    ranges,
                    children: ic,
                };
                let ghost ns = node_shape(node);
                assert(before.children == seq![ns] + rest.children);
                assert(before.scopes == inner.scopes + seq![ns] + rest.scopes);
                let copy = node.duplicate();
                let ghost out_before_push = out@;
                out.push(copy);
                proof {
                    lemma_nodes_push(out_before_push, copy);
                    lemma_nodes_push(children@, node);
                }
                children.push(node);
                proof {
                    assert(nodes_shape(out@) =~= out0 + (acc_scopes + inner.scopes + seq![ns]));
                    assert(total.children =~= nodes_shape(children@) + rest.children);
                    assert(total.scopes =~= (acc_scopes + inner.scopes + seq![ns]) + rest.scopes);
                    acc_scopes = acc_scopes + inner.scopes + seq![ns];
                }
                k = e;
            },
            None => {
                let d = &dies[k];
                let ghost rest = scan(dies@, unit_offset, k + 1, to as int);
                if d.tag == DW_TAG_VARIABLE {
                    if let Some(v) = extract_variable(d) {
                        proof {
                            lemma_vars_push(vars@, v);
                        }
                        vars.push(v);
                    }
                } else if d.tag == DW_TAG_FORMAL_PARAMETER {
                    if let Some(v) = extract_variable(d) {
                        proof {
                            lemma_vars_push(args@, v);
                        }
                        args.push(v);
                    }
                }
                assert(total.vars =~= vars_shape(vars@) + rest.vars);
                assert(total.args =~= vars_shape(args@) + rest.args);
                k = k + 1;
            },
        }
    }
    assert(total.scopes =~= acc_scopes);
    assert(total.vars =~= vars_shape(vars@));
    assert(total.args =~= vars_shape(args@));
    assert(total.children =~= nodes_shape(children@));
    (vars, args, children)
}

} // verus!

verus! {

/// The types the entries `1..k` of a unit describe, by offset.
pub open spec fn unit_types(dies: Seq<DieRecord>, k: int) -> Map<usize, TypeShape>
    decreases k,
{
    if k <= 1 || k > dies.len() {
        Map::empty()
    } else {
        let m = unit_types(dies, k - 1);
        match die_type(dies, k - 1) {
            Some(t) => m.insert(dies[k - 1].offset, t),
            None => m,
        }
    }
}

/// `new` is `old` with the types of `added` stored at their offsets.
pub open spec fn types_added(
    old: Map<usize, TypeCacheNode>,
    new: Map<usize, TypeCacheNode>,
    added: Map<usize, TypeShape>,
) -> bool {
    &&& forall|o: usize| #[trigger] new.contains_key(o) <==> (old.contains_key(o) || added.contains_key(o))
    &&& forall|o: usize|
        #[trigger] added.contains_key(o) ==> shape(new[o].dwarf_type) == added[o] && new[o].offset == o
    &&& forall|o: usize| !added.contains_key(o) && #[trigger] old.contains_key(o) ==> new[o] == old[o]
}

/// The scopes of a unit whose entries are `dies`: those below the unit entry.
pub open spec fn unit_scopes(dies: Seq<DieRecord>, unit_offset: usize) -> Seq<NodeShape> {
    if dies.len() == 0 {
        Seq::empty()
    } else {
        scan(dies, unit_offset, 1, dies.len() as int).scopes
    }
}

/// The types that the units `0..k` describe, a later unit's type replacing
/// an earlier one at the same offset.
pub open spec fn units_types(units: Seq<UnitRecord>, k: int) -> Map<usize, TypeShape>
    decreases k,
{
    if k <= 0 || k > units.len() {
        Map::empty()
    } else {
        units_types(units, k - 1).union_prefer_right(
            unit_types(units[k - 1].dies@, units[k - 1].dies@.len() as int),
        )
    }
}

/// The scopes of the units `0..k`, unit after unit.
pub open spec fn units_scopes(units: Seq<UnitRecord>, k: int) -> Seq<NodeShape>
    decreases k,
{
    if k <= 0 || k > units.len() {
        Seq::empty()
    } else {
        units_scopes(units, k - 1) + unit_scopes(units[k - 1].dies@, units[k - 1].offset)
    }
}

/// Adding types twice is adding both, the later ones winning.
proof fn lemma_types_added_twice(
    a: Map<usize, TypeCacheNode>,
    b: Map<usize, TypeCacheNode>,
    c: Map<usize, TypeCacheNode>,
    x: Map<usize, TypeShape>,
    y: Map<usize, TypeShape>,
)
    requires
        types_added(a, b, x),
        types_added(b, c, y),
    ensures
        types_added(a, c, x.union_prefer_right(y)),
{
    let z = x.union_prefer_right(y);
    assert forall|o: usize| #[trigger] c.contains_key(o) <==> (a.contains_key(o) || z.contains_key(o)) by {
        assert(c.contains_key(o) <==> (b.contains_key(o) || y.contains_key(o)));
        assert(b.contains_key(o) <==> (a.contains_key(o) || x.contains_key(o)));
    }
    assert forall|o: usize| #[trigger] z.contains_key(o) implies shape(c[o].dwarf_type) == z[o] && c[o].offset == o by {
        if y.contains_key(o) {
        } else {
            assert(x.contains_key(o));
            assert(b.contains_key(o));
        }
    }
    assert forall|o: usize| !z.contains_key(o) && #[trigger] a.contains_key(o) implies c[o] == a[o] by {
        assert(b.contains_key(o));
    }
}

impl DebuggerMetadataCache {
    /// Reads a compilation unit into the cache: the unit's encoding (when none
    /// is known yet), the types its entries describe (every entry after the
    /// unit entry, by offset) and its scopes, each appended in the order it
    /// ends.
    pub fn dump_unit(&mut self, unit: &UnitRecord)
        ensures
            final(self).encoding == (if old(self).encoding is None {
                Some(unit.encoding)
            } else {
                old(self).encoding
            }),
            types_added(
                old(self).type_index@,
                final(self).type_index@,
                unit_types(unit.dies@, unit.dies@.len() as int),
            ),
            nodes_shape(final(self).execution_scopes@) == nodes_shape(old(self).execution_scopes@)
                + unit_scopes(unit.dies@, unit.offset),
            final(self).base_addresses == old(self).base_addresses,
            final(self).text_address == old(self).text_address,
            final(self).endian == old(self).endian,
            final(self).abi == old(self).abi,
    {
        if self.encoding.is_none() {
            self.encoding = Some(unit.encoding);
        }
        let dies = &unit.dies;
        let n = dies.len();
        let ghost old_types = self.type_index@;
        let mut i: usize = 1;
        assert(types_added(old_types, self.type_index@, unit_types(dies@, 1)));
        while i < n
            invariant
                n == dies@.len(),
                1 <= i,
                i <= n || n == 0,
                types_added(old_types, self.type_index@, unit_types(dies@, i as int)),
                old_types == old(self).type_index@,
                self.execution_scopes@ == old(self).execution_scopes@,
                self.encoding == (if old(self).encoding is None {
                    Some(unit.encoding)
                } else {
                    old(self).encoding
                }),
                self.base_addresses == old(self).base_addresses,
                self.text_address == old(self).text_address,
                self.endian == old(self).endian,
                self.abi == old(self).abi,
            decreases n - i,
        {
            let ghost before = self.type_index@;
            if let Some(t) = read_die_type(dies, i) {
                let offset = dies[i].offset;
                crate::fxmap::fx_insert(&mut self.type_index, offset, TypeCacheNode { dwarf_type: t, offset });
                proof {
                    let added = unit_types(dies@, i + 1);
                    assert(added == unit_types(dies@, i as int).insert(offset, shape(t)));
                    assert forall|o: usize| #[trigger] added.contains_key(o) implies shape(
                        self.type_index@[o].dwarf_type,
                    ) == added[o] && self.type_index@[o].offset == o by {
                        if o != offset {
                            assert(unit_types(dies@, i as int).contains_key(o));
                        }
                    }
                }
            }
            i = i + 1;
        }
        assert(n == 0 ==> unit_types(dies@, n as int) == unit_types(dies@, 1));
        if n > 0 {
            let _ = build_scopes(dies, unit.offset, 1, n, &mut self.execution_scopes);
        } else {
            assert(nodes_shape(self.execution_scopes@) + Seq::<NodeShape>::empty() =~= nodes_shape(
                self.execution_scopes@,
            ));
        }
    }

    /// Fills the cache for a binary: the addresses of its text, GOT and
    /// `.eh_frame` sections, its ABI (by its format) and byte order, and every
    /// compilation unit in order.
    pub fn lookup_vars(
        &mut self,
        text_address: u64,
        got_address: u64,
        eh_frame_address: u64,
        format: ObjectFormat,
        little_endian: bool,
        units: &Vec<UnitRecord>,
    )
        ensures
            final(self).text_address == text_address,
            final(self).base_addresses == (SectionBases {
                text: text_address,
                got: got_address,
                eh_frame: eh_frame_address,
            }),
            final(self).endian == (if little_endian {
                Endianness::Little
            } else {
                Endianness::Big
            }),
            final(self).abi == abi_of(format),
            final(self).encoding == (if old(self).encoding is None && units@.len() > 0 {
                Some(units@[0].encoding)
            } else {
                old(self).encoding
            }),
            types_added(old(self).type_index@, final(self).type_index@, units_types(units@, units@.len() as int)),
            nodes_shape(final(self).execution_scopes@) == nodes_shape(old(self).execution_scopes@) + units_scopes(
                units@,
                units@.len() as int,
            ),
    {
        self.text_address = text_address;
        self.base_addresses = SectionBases { text: text_address, got: got_address, eh_frame: eh_frame_address };
        self.abi = Abi::new(format);
        self.endian = if little_endian {
            Endianness::Little
        } else {
            Endianness::Big
        };
        let ghost enc0 = self.encoding;
        assert(nodes_shape(self.execution_scopes@) + units_scopes(units@, 0) =~= nodes_shape(self.execution_scopes@));
        let n = units.len();
        let mut i: usize = 0;
        while i < n
            invariant
                n == units@.len(),
                i <= n,
                self.text_address == text_address,
                self.base_addresses == (SectionBases {
                    text: text_address,
                    got: got_address,
                    eh_frame: eh_frame_address,
                }),
                self.endian == (if little_endian {
                    Endianness::Little
                } else {
                    Endianness::Big
                }),
                self.abi == abi_of(format),
                i > 0 && enc0 is None ==> self.encoding == Some(units@[0].encoding),
                enc0 == old(self).encoding,
                i == 0 || enc0 is Some ==> self.encoding == enc0,
                types_added(old(self).type_index@, self.type_index@, units_types(units@, i as int)),
                nodes_shape(self.execution_scopes@) == nodes_shape(old(self).execution_scopes@) + units_scopes(
                    units@,
                    i as int,
                ),
            decreases n - i,
        {
            let ghost before = self.type_index@;
            let ghost scopes_before = nodes_shape(self.execution_scopes@);
            self.dump_unit(&units[i]);
            proof {
                lemma_types_added_twice(
                    old(self).type_index@,
                    before,
                    self.type_index@,
                    units_types(units@, i as int),
                    unit_types(units@[i as int].dies@, units@[i as int].dies@.len() as int),
                );
                assert(nodes_shape(self.execution_scopes@) =~= nodes_shape(old(self).execution_scopes@) + units_scopes(
                    units@,
                    i + 1,
                ));
            }
            i = i + 1;
        }
        proof {
            if n == 0 {
                assert(units_types(units@, 0) =~= Map::<usize, TypeShape>::empty());
            }
        }
    }
}

} // verus!
