//! The debugger's model of DWARF: types, scopes, variables, and the queries
//! that find what is live at a program counter.
use crate::fxmap::fx_get;
use rustc_hash::FxHashMap;
use vstd::prelude::*;

verus! {

/// The container formats the debugger tells apart.
#[derive(Debug, Clone, Copy, PartialEq, Eq)]
pub enum ObjectFormat {
    Coff,
    Elf,
    MachO,
    Pe,
    Wasm,
    Xcoff,
    Other,
}

/// The register saved-state of a stopped x86-64 thread.
#[derive(Debug, Clone, Copy, PartialEq, Eq, Default)]
pub struct PlatformRegStruct {
    pub r15: u64,
    pub r14: u64,
    pub r13: u64,
    pub r12: u64,
    pub rbp: u64,
    pub rbx: u64,
    pub r11: u64,
    pub r10: u64,
    pub r9: u64,
    pub r8: u64,
    pub rax: u64,
    pub rcx: u64,
    pub rdx: u64,
    pub rsi: u64,
    pub rdi: u64,
    pub orig_rax: u64,
    pub rip: u64,
    pub cs: u64,
    pub eflags: u64,
    pub rsp: u64,
    pub ss: u64,
    pub fs_base: u64,
    pub gs_base: u64,
    pub ds: u64,
    pub es: u64,
    pub fs: u64,
    pub gs: u64,
}

/// A view on the registers of the stopped debuggee.
#[derive(Debug, Clone, Copy, PartialEq, Eq)]
pub struct RegisterViewer {
    pub regs: PlatformRegStruct,
}

impl RegisterViewer {
    /// A view on `regs`.
    pub fn new(regs: PlatformRegStruct) -> (r: Self)
        ensures
            r.regs == regs,
    {
        RegisterViewer { regs }
    }

    /// The instruction pointer (`rip`).
    pub fn instruction_pointer(&self) -> (r: u64)
        ensures
            r == self.regs.rip,
    {
        self.regs.rip
    }

    /// The stack pointer (`rsp`).
    pub fn stack_pointer(&self) -> (r: u64)
        ensures
            r == self.regs.rsp,
    {
        self.regs.rsp
    }

    /// The base pointer (`rbp`).
    pub fn base_pointer(&self) -> (r: u64)
        ensures
            r == self.regs.rbp,
    {
        self.regs.rbp
    }
}

/// The calling convention, which decides how DWARF register numbers map to registers.
#[derive(Debug, Clone, Copy, PartialEq, Eq, Default)]
pub enum Abi {
    #[default]
    SystemV,
    WindowsMsvc,
    Unknown,
}

/// The ABI of a container format.
pub open spec fn abi_of(format: ObjectFormat) -> Abi {
    match format {
        ObjectFormat::Xcoff | ObjectFormat::Elf | ObjectFormat::MachO => Abi::SystemV,
        ObjectFormat::Coff => Abi::WindowsMsvc,
        _ => Abi::Unknown,
    }
}

/// The DWARF register numbers the debugger reads under `abi`.
pub open spec fn supports_register(abi: Abi, dw_reg: u16) -> bool {
    match abi {
        Abi::SystemV => dw_reg == 6 || dw_reg == 7,
        Abi::WindowsMsvc => dw_reg == 13 || dw_reg == 23,
        Abi::Unknown => false,
    }
}

/// The value of DWARF register `dw_reg` under `abi` (the frame or the stack pointer).
pub open spec fn register_value(abi: Abi, dw_reg: u16, regs: RegisterViewer) -> u64 {
    match abi {
        Abi::SystemV => if dw_reg == 6 { regs.regs.rbp } else { regs.regs.rsp },
        Abi::WindowsMsvc => if dw_reg == 13 { regs.regs.rbp } else { regs.regs.rsp },
        Abi::Unknown => 0,
    }
}

impl Abi {
    /// The ABI of a binary of format `format`: the System V ABI for ELF,
    /// Mach-O and XCOFF, the Microsoft one for COFF, none known otherwise.
    pub fn new(format: ObjectFormat) -> (r: Self)
        ensures
            r == abi_of(format),
    {
        match format {
            ObjectFormat::Xcoff => Abi::SystemV,
            ObjectFormat::Elf => Abi::SystemV,
            ObjectFormat::MachO => Abi::SystemV,
            ObjectFormat::Coff => Abi::WindowsMsvc,
            _ => Abi::Unknown,
        }
    }

    /// The value of a DWARF register, for the frame and stack pointers.
    pub fn get_register_value(&self, dw_reg: u16, registers: &RegisterViewer) -> (r: u64)
        requires
            supports_register(*self, dw_reg),
        ensures
            r == register_value(*self, dw_reg, *registers),
    {
        match self {
            Abi::SystemV => if dw_reg == 6 {
                registers.base_pointer()
            } else {
                registers.stack_pointer()
            },
            Abi::WindowsMsvc => if dw_reg == 13 {
                registers.base_pointer()
            } else {
                registers.stack_pointer()
            },
            Abi::Unknown => 0,
        }
    }
}

/// The result of running a frame-base program over `bytes[i..]` from `stack`,
/// or nothing where an opcode is unsupported or pops an empty stack.
pub open spec fn frame_base_run(bytes: Seq<u8>, i: int, stack: Seq<u64>, regs: RegisterViewer, abi: Abi) -> Option<Seq<u64>>
    decreases bytes.len() - i,
{
    if i >= bytes.len() || i < 0 {
        Some(stack)
    } else {
        let op = bytes[i];
        if 0x50 <= op <= 0x6F {
            let reg = (op - 0x50) as u16;
            if supports_register(abi, reg) {
                frame_base_run(bytes, i + 1, stack.push(register_value(abi, reg, regs)), regs, abi)
            } else {
                None
            }
        } else if op == 0x22 || op == 0x1C {
            if stack.len() < 2 {
                None
            } else {
                let b = stack.last();
                let a = stack.drop_last().last();
                let v = if op == 0x22 {
                    ((a + b) % 0x1_0000_0000_0000_0000) as u64
                } else {
                    ((a - b) % 0x1_0000_0000_0000_0000) as u64
                };
                frame_base_run(bytes, i + 1, stack.drop_last().drop_last().push(v), regs, abi)
            }
        } else {
            None
        }
    }
}

/// The frame base that the program `bytes` computes: the top of the stack at its end.
pub open spec fn frame_base_value(bytes: Seq<u8>, regs: RegisterViewer, abi: Abi) -> Option<u64> {
    match frame_base_run(bytes, 0, Seq::empty(), regs, abi) {
        Some(s) => if s.len() > 0 { Some(s.last()) } else { None },
        None => None,
    }
}

/// Evaluates the frame base from the raw bytes by reading them as a stream of
/// stack operations: push a register (`DW_OP_reg0..31`), add (`DW_OP_plus`) or
/// subtract (`DW_OP_minus`) the top two values.
pub fn evaluate_frame_base_bytes(bytes: &[u8], registers: &RegisterViewer, abi: &Abi) -> (r: u64)
    requires
        frame_base_value(bytes@, *registers, *abi) is Some,
    ensures
        Some(r) == frame_base_value(bytes@, *registers, *abi),
{
    let mut stack: Vec<u64> = Vec::new();
    let mut i: usize = 0;
    while i < bytes.len()
        invariant
            i <= bytes@.len(),
            frame_base_run(bytes@, i as int, stack@, *registers, *abi) == frame_base_run(
                bytes@,
                0,
                Seq::empty(),
                *registers,
                *abi,
            ),
            frame_base_value(bytes@, *registers, *abi) is Some,
        decreases bytes@.len() - i,
    {
        let op = bytes[i];
        i = i + 1;
        if 0x50 <= op && op <= 0x6F {
            let dw_reg_num = (op - 0x50) as u16;
            let value = abi.get_register_value(dw_reg_num, registers);
            stack.push(value);
        } else {
            let b = stack.pop().unwrap();
            let a = stack.pop().unwrap();
            if op == 0x22 {
                stack.push(a.wrapping_add(b));
            } else {
                stack.push(a.wrapping_sub(b));
            }
        }
    }
    stack.pop().unwrap()
}

/// Whether `evaluate_frame_base_bytes` can run `bytes`: every opcode is
/// supported and every operation finds its operands.
pub fn frame_base_is_supported(bytes: &[u8], registers: &RegisterViewer, abi: &Abi) -> (r: bool)
    ensures
        r == (frame_base_value(bytes@, *registers, *abi) is Some),
{
    let mut depth: usize = 0;
    let mut i: usize = 0;
    let ghost mut stack: Seq<u64> = Seq::empty();
    while i < bytes.len()
        invariant
            i <= bytes@.len(),
            depth == stack.len(),
            depth <= i,
            frame_base_run(bytes@, i as int, stack, *registers, *abi) == frame_base_run(
                bytes@,
                0,
                Seq::empty(),
                *registers,
                *abi,
            ),
        decreases bytes@.len() - i,
    {
        let op = bytes[i];
        if 0x50 <= op && op <= 0x6F {
            let reg = (op - 0x50) as u16;
            let ok = match abi {
                Abi::SystemV => reg == 6 || reg == 7,
                Abi::WindowsMsvc => reg == 13 || reg == 23,
                Abi::Unknown => false,
            };
            if !ok {
                return false;
            }
            proof {
                stack = stack.push(register_value(*abi, reg, *registers));
            }
            depth = depth + 1;
        } else if op == 0x22 || op == 0x1C {
            if depth < 2 {
                return false;
            }
            proof {
                let b = stack.last();
                let a = stack.drop_last().last();
                let v = if op == 0x22 {
                    ((a + b) % 0x1_0000_0000_0000_0000) as u64
                } else {
                    ((a - b) % 0x1_0000_0000_0000_0000) as u64
                };
                stack = stack.drop_last().drop_last().push(v);
            }
            depth = depth - 1;
        } else {
            return false;
        }
        i = i + 1;
    }
    depth > 0
}

} // verus!

verus! {

/// A member of a structure or of an enum variant: its name, type and byte offset.
#[derive(Debug, Clone, PartialEq, Eq)]
pub struct StructField {
    pub name: String,
    pub type_offset: usize,
    pub location: u64,
}

/// A generic parameter of a type, such as `T` of `Vec<T>`, and the type it stands for.
#[derive(Debug, Clone, PartialEq, Eq)]
pub struct GenericField {
    pub name: String,
    pub type_offset: usize,
}

/// A named constant of a C-like enum.
#[derive(Debug, Clone, PartialEq, Eq)]
pub struct Enumerator {
    pub name: String,
    pub value: u64,
}

/// One variant of a Rust enum: the discriminant that selects it (none for the
/// niche-optimised fallback) and its fields.
#[derive(Debug, Clone, PartialEq, Eq)]
pub struct EnumVariant {
    pub discr_value: Option<u8>,
    pub fields: Vec<StructField>,
}

/// The kinds of type the debugger reads out of DWARF.
#[derive(Debug, Clone, PartialEq, Eq)]
pub enum DwarfType {
    /// Primitive types (integers, floats, bool, char).
    Base { name: String, encoding: u8, byte_size: u64 },
    /// A pointer.
    Pointer { name: Option<String>, target_type_offset: usize },
    /// A `const` qualifier.
    Const { target_type_offset: usize },
    /// A fixed-size array.
    Array { target_type_offset: usize, count: u64 },
    /// Structures such as String, &str, Box...
    Structure {
        name: String,
        byte_size: u64,
        alignment: u64,
        generics: Vec<GenericField>,
        fields: Vec<StructField>,
    },
    /// C-like enums.
    Enum { name: String, byte_size: u64, fields: Vec<Enumerator> },
    /// Rust enums, with fields.
    Variant {
        name: String,
        byte_size: u64,
        alignment: u64,
        discr_member_offset: Option<u64>,
        variants: Vec<EnumVariant>,
    },
}

/// A type and the offset of its DWARF entry.
#[derive(Debug, Clone, PartialEq, Eq)]
pub struct TypeCacheNode {
    pub dwarf_type: DwarfType,
    pub offset: usize,
}

/// The name shown for a type.
pub open spec fn shown_type_name(t: DwarfType) -> Seq<char> {
    match t {
        DwarfType::Base { name, .. } => name@,
        DwarfType::Pointer { .. } => "ptr"@,
        DwarfType::Const { .. } => "const"@,
        DwarfType::Array { .. } => "array"@,
        DwarfType::Enum { name, .. } => name@,
        DwarfType::Structure { name, .. } => name@,
        DwarfType::Variant { name, .. } => name@,
    }
}

/// The size in bytes of a type, following array element types through the
/// index (`fuel` bounds the chain); none when an element type is missing or
/// the size does not fit in 64 bits.
pub open spec fn byte_size_of(t: DwarfType, index: Map<usize, TypeCacheNode>, fuel: nat) -> Option<u64>
    decreases fuel,
{
    match t {
        DwarfType::Base { byte_size, .. } => Some(byte_size),
        DwarfType::Pointer { .. } => Some(8),
        DwarfType::Const { .. } => Some(8),
        DwarfType::Array { count, target_type_offset } => {
            if fuel == 0 || !index.contains_key(target_type_offset) {
                None
            } else {
                match byte_size_of(index[target_type_offset].dwarf_type, index, (fuel - 1) as nat) {
                    Some(s) => if count * s <= u64::MAX {
                        Some((count * s) as u64)
                    } else {
                        None
                    },
                    None => None,
                }
            }
        },
        DwarfType::Enum { byte_size, .. } => Some(byte_size),
        DwarfType::Structure { byte_size, .. } => Some(byte_size),
        DwarfType::Variant { byte_size, .. } => Some(byte_size),
    }
}

/// The depth of array nesting the size computation follows.
pub open spec fn size_fuel() -> nat {
    0xFFFF_FFFF
}

impl DwarfType {
    /// The name shown for the type.
    pub fn get_name(&self) -> (r: String)
        ensures
            r@ == shown_type_name(*self),
    {
        match self {
            DwarfType::Base { name, .. } => name.clone(),
            DwarfType::Pointer { .. } => "ptr".to_owned(),
            DwarfType::Const { .. } => "const".to_owned(),
            DwarfType::Array { .. } => "array".to_owned(),
            DwarfType::Enum { name, .. } => name.clone(),
            DwarfType::Structure { name, .. } => name.clone(),
            DwarfType::Variant { name, .. } => name.clone(),
        }
    }

    /// The size in bytes of the type; for arrays, the element size times the count.
    pub fn get_byte_size(&self, type_index: &FxHashMap<usize, TypeCacheNode>) -> (r: Option<u64>)
        ensures
            r == byte_size_of(*self, type_index@, size_fuel()),
    {
        self.byte_size_with_fuel(type_index, 0xFFFF_FFFF)
    }

    fn byte_size_with_fuel(&self, type_index: &FxHashMap<usize, TypeCacheNode>, fuel: u32) -> (r:
        Option<u64>)
        ensures
            r == byte_size_of(*self, type_index@, fuel as nat),
        decreases fuel,
    {
        match self {
            DwarfType::Base { byte_size, .. } => Some(*byte_size),
            DwarfType::Pointer { .. } => Some(8),
            DwarfType::Const { .. } => Some(8),
            DwarfType::Array { count, target_type_offset } => {
                if fuel == 0 {
                    return None;
                }
                let ty = match fx_get(type_index, target_type_offset) {
                    Some(ty) => ty,
                    None => return None,
                };
                let resolved_size = match ty.dwarf_type.byte_size_with_fuel(type_index, fuel - 1) {
                    Some(s) => s,
                    None => return None,
                };
                count.checked_mul(resolved_size)
            },
            DwarfType::Enum { byte_size, .. } => Some(*byte_size),
            DwarfType::Structure { byte_size, .. } => Some(*byte_size),
            DwarfType::Variant { byte_size, .. } => Some(*byte_size),
        }
    }
}

} // verus!

verus! {

/// A file of a compilation unit: the unit's offset and the file's index in its line program.
#[derive(Debug, Clone, Copy, PartialEq, Eq, Default)]
pub struct UniqueFileId {
    pub offset: usize,
    pub file_idx: u64,
}

/// What kind of code a scope is.
#[derive(Debug, Clone, PartialEq, Eq)]
pub enum ExecutionScope {
    /// A function, with the program that computes its frame base.
    Function {
        display_name: String,
        linkage_name: String,
        bytes: Option<Vec<u8>>,
        decl_file_id: UniqueFileId,
        decl_line: u32,
    },
    /// A function inlined into another.
    Inlined {
        name: String,
        unit_offset: usize,
        call_file_idx: u64,
        decl_file_idx: u64,
        call_line: u32,
        decl_line: u32,
    },
    /// A `{ ... }` block.
    LexicalBlock,
}

impl ExecutionScope {
    /// The frame-base program of a function that has one.
    pub fn get_bytes(&self) -> (r: Option<&Vec<u8>>)
        ensures
            match self {
                ExecutionScope::Function { bytes, .. } => match bytes {
                    Some(b) => r == Some(b),
                    None => r is None,
                },
                _ => r is None,
            },
    {
        match self {
            ExecutionScope::Function { bytes, .. } => match bytes {
                Some(b) => Some(b),
                None => None,
            },
            _ => None,
        }
    }

    /// The name of a function.
    pub fn get_name(&self) -> (r: Option<&str>)
        ensures
            match self {
                ExecutionScope::Function { display_name, .. } => r matches Some(n) && n@ == display_name@,
                _ => r is None,
            },
    {
        match self {
            ExecutionScope::Function { display_name, .. } => Some(display_name.as_str()),
            _ => None,
        }
    }

    /// Whether the scope is an inlined call.
    pub fn is_inline(&self) -> (r: bool)
        ensures
            r == (*self is Inlined),
    {
        match self {
            ExecutionScope::Inlined { .. } => true,
            _ => false,
        }
    }

    /// Whether the scope is a function.
    pub fn is_func(&self) -> (r: bool)
        ensures
            r == (*self is Function),
    {
        match self {
            ExecutionScope::Function { .. } => true,
            _ => false,
        }
    }
}

/// A variable or argument: its name, type, location program and declaration line.
#[derive(Debug, Clone, PartialEq, Eq)]
pub struct DebugVariable {
    pub name: String,
    pub target_type_offset: usize,
    pub location: Vec<u8>,
    pub decl_line: u32,
}

/// The addresses `[low_pc, high_pc)`.
#[derive(Debug, Clone, Copy, PartialEq, Eq)]
pub struct AddressRange {
    pub low_pc: u64,
    pub high_pc: u64,
}

impl AddressRange {
    /// Whether `pc` lies in `[low_pc, high_pc)`.
    pub open spec fn contains(self, pc: u64) -> bool {
        self.low_pc <= pc < self.high_pc
    }
}

/// A scope: a function, an inlined call or a block, with its variables, the
/// addresses it covers and the scopes nested in it.
#[derive(Debug)]
pub struct ScopeCacheNode {
    pub scope: ExecutionScope,
    pub offset: usize,
    pub variables: Vec<DebugVariable>,
    pub args: Vec<DebugVariable>,
    pub ranges: Vec<AddressRange>,
    pub children: Vec<ScopeCacheNode>,
}

/// Some range of `ranges` contains `pc`.
pub open spec fn ranges_contain(ranges: Seq<AddressRange>, pc: u64) -> bool {
    exists|i: int| 0 <= i < ranges.len() && #[trigger] ranges[i].contains(pc)
}

/// Index of the first variable named `name`.
pub open spec fn first_named(vars: Seq<DebugVariable>, name: Seq<char>) -> Option<int> {
    if exists|i: int| 0 <= i < vars.len() && vars[i].name@ == name {
        Some(
            choose|i: int|
                0 <= i < vars.len() && vars[i].name@ == name && forall|j: int|
                    0 <= j < i ==> vars[j].name@ != name,
        )
    } else {
        None
    }
}

/// Finds the first variable named `name` in `vars`.
fn find_named<'a>(vars: &'a Vec<DebugVariable>, name: &str) -> (r: Option<&'a DebugVariable>)
    ensures
        match first_named(vars@, name@) {
            Some(i) => r == Some(&vars@[i]),
            None => r is None,
        },
{
    let n = vars.len();
    let mut i: usize = 0;
    while i < n
        invariant
            n == vars@.len(),
            i <= n,
            forall|j: int| 0 <= j < i ==> vars@[j].name@ != name@,
        decreases n - i,
    {
        if crate::text::str_eq(vars[i].name.as_str(), name) {
            let ghost w = choose|w: int|
                0 <= w < vars@.len() && vars@[w].name@ == name@ && forall|j: int|
                    0 <= j < w ==> vars@[j].name@ != name@;
            assert(w == i as int) by {
                if w < i {
                } else if w > i {
                }
            }
            return Some(&vars[i]);
        }
        i = i + 1;
    }
    None
}

/// Index of the first range that contains `pc`.
pub open spec fn first_range_with(ranges: Seq<AddressRange>, pc: u64) -> Option<int> {
    if ranges_contain(ranges, pc) {
        Some(
            choose|i: int|
                0 <= i < ranges.len() && ranges[i].contains(pc) && forall|j: int|
                    0 <= j < i ==> !(#[trigger] ranges[j].contains(pc)),
        )
    } else {
        None
    }
}

/// The deepest scope containing `pc`, searching children in order: the
/// first child that has one answers; otherwise the node itself.
pub open spec fn active_scope(node: ScopeCacheNode, pc: u64) -> Option<ScopeCacheNode>
    decreases node,
{
    if !ranges_contain(node.ranges@, pc) {
        None
    } else {
        match first_active_child(node.children@, pc, 0) {
            Some(s) => Some(s),
            None => Some(node),
        }
    }
}

/// The answer of the first child from index `i` on that has an active scope.
pub open spec fn first_active_child(children: Seq<ScopeCacheNode>, pc: u64, i: int) -> Option<ScopeCacheNode>
    decreases children, children.len() - i,
{
    if i < 0 || i >= children.len() {
        None
    } else {
        match active_scope(children[i], pc) {
            Some(s) => Some(s),
            None => first_active_child(children, pc, i + 1),
        }
    }
}

impl ScopeCacheNode {
    /// The first variable of this scope named `name`.
    pub fn get_variable_with_name(&self, name: &str) -> (r: Option<&DebugVariable>)
        ensures
            match first_named(self.variables@, name@) {
                Some(i) => r == Some(&self.variables@[i]),
                None => r is None,
            },
    {
        find_named(&self.variables, name)
    }

    /// The pc lies within one of the scope's ranges.
    pub fn is_in_scope(&self, pc: u64) -> (r: bool)
        ensures
            r == ranges_contain(self.ranges@, pc),
    {
        self.get_active_process_range(pc).is_some()
    }

    /// The first of the scope's ranges that holds `pc`.
    pub fn get_active_process_range(&self, pc: u64) -> (r: Option<&AddressRange>)
        ensures
            match first_range_with(self.ranges@, pc) {
                Some(i) => r == Some(&self.ranges@[i]),
                None => r is None,
            },
    {
        let n = self.ranges.len();
        let mut i: usize = 0;
        while i < n
            invariant
                n == self.ranges@.len(),
                i <= n,
                forall|j: int| 0 <= j < i ==> !(#[trigger] self.ranges@[j].contains(pc)),
            decreases n - i,
        {
            let r = &self.ranges[i];
            if r.low_pc <= pc && pc < r.high_pc {
                assert(self.ranges@[i as int].contains(pc));
                let ghost w = choose|w: int|
                    0 <= w < self.ranges@.len() && self.ranges@[w].contains(pc) && forall|j: int|
                        0 <= j < w ==> !(#[trigger] self.ranges@[j].contains(pc));
                assert(w == i as int) by {
                    if w < i {
                    } else if w > i {
                    }
                }
                return Some(r);
            }
            i = i + 1;
        }
        None
    }

    /// Recursively finds the scope that captures the pc best.
    pub fn find_active_scope(&self, pc: u64) -> (r: Option<&ScopeCacheNode>)
        ensures
            match active_scope(*self, pc) {
                Some(s) => r matches Some(x) && *x == s,
                None => r is None,
            },
        decreases *self,
    {
        if !self.is_in_scope(pc) {
            return None;
        }
        let n = self.children.len();
        let mut i: usize = 0;
        while i < n
            invariant
                n == self.children@.len(),
                i <= n,
                ranges_contain(self.ranges@, pc),
                first_active_child(self.children@, pc, 0) == first_active_child(
                    self.children@,
                    pc,
                    i as int,
                ),
            decreases n - i,
        {
            assert(decreases_to!(*self => self.children@[i as int]));
            if let Some(deepest_match) = self.children[i].find_active_scope(pc) {
                assert(active_scope(self.children@[i as int], pc) == Some(*deepest_match));
                assert(first_active_child(self.children@, pc, i as int) == Some(*deepest_match));
                assert(ranges_contain(self.ranges@, pc));
                assert(active_scope(*self, pc) == Some(*deepest_match));
                return Some(deepest_match);
            }
            assert(active_scope(self.children@[i as int], pc) is None);
            i = i + 1;
        }
        Some(self)
    }
}

/// `find_active_scope` answers exactly when the pc lies in the scope.
pub proof fn lemma_active_iff_in_scope(node: ScopeCacheNode, pc: u64)
    ensures
        (active_scope(node, pc) is Some) == ranges_contain(node.ranges@, pc),
{
}

} // verus!

verus! {

/// The byte order of the debuggee.
#[derive(Debug, Clone, Copy, PartialEq, Eq, Default)]
pub enum Endianness {
    #[default]
    Little,
    Big,
}

/// The encoding parameters of a compilation unit that location programs depend on.
#[derive(Debug, Clone, Copy, PartialEq, Eq)]
pub struct UnitEncoding {
    pub address_size: u8,
    pub is_dwarf64: bool,
    pub version: u16,
}

/// The section addresses that call frame information is relative to.
#[derive(Debug, Clone, Copy, PartialEq, Eq, Default)]
pub struct SectionBases {
    pub text: u64,
    pub got: u64,
    pub eh_frame: u64,
}

/// Which of a scope's variables a query asks for.
#[derive(Debug, Clone, Copy, PartialEq, Eq)]
pub enum ParamType {
    Variable,
    Argument,
    All,
}

/// The variables visible at a pc and the frame-base program of their function.
#[derive(Debug)]
pub struct ActiveParamsContext<'a> {
    pub params: Vec<&'a DebugVariable>,
    pub frame_base: Option<&'a Vec<u8>>,
}

/// Index of the first parameter named `name`.
pub open spec fn first_param_named(params: Seq<&DebugVariable>, name: Seq<char>) -> Option<int> {
    if exists|i: int| 0 <= i < params.len() && params[i].name@ == name {
        Some(
            choose|i: int|
                0 <= i < params.len() && params[i].name@ == name && forall|j: int|
                    0 <= j < i ==> params[j].name@ != name,
        )
    } else {
        None
    }
}

impl<'a> ActiveParamsContext<'a> {
    /// The first visible variable named `name`.
    pub fn get_param_with_name(&self, name: &str) -> (r: Option<&DebugVariable>)
        ensures
            match first_param_named(self.params@, name@) {
                Some(i) => r == Some(self.params@[i]),
                None => r is None,
            },
    {
        let n = self.params.len();
        let mut i: usize = 0;
        while i < n
            invariant
                n == self.params@.len(),
                i <= n,
                forall|j: int| 0 <= j < i ==> self.params@[j].name@ != name@,
            decreases n - i,
        {
            if crate::text::str_eq(self.params[i].name.as_str(), name) {
                let ghost w = choose|w: int|
                    0 <= w < self.params@.len() && self.params@[w].name@ == name@ && forall|j: int|
                        0 <= j < w ==> self.params@[j].name@ != name@;
                assert(w == i as int) by {
                    if w < i {
                    } else if w > i {
                    }
                }
                return Some(self.params[i]);
            }
            i = i + 1;
        }
        None
    }
}

/// Whether the pc lies in inlined code: the first top-level scope holding the
/// pc that is a function says no, an inlined call says yes; with neither, yes.
pub open spec fn inline_at(scopes: Seq<ScopeCacheNode>, pc: u64, i: int) -> bool
    decreases scopes.len() - i,
{
    if i < 0 || i >= scopes.len() {
        true
    } else if ranges_contain(scopes[i].ranges@, pc) && scopes[i].scope is Function {
        false
    } else if ranges_contain(scopes[i].ranges@, pc) && scopes[i].scope is Inlined {
        true
    } else {
        inline_at(scopes, pc, i + 1)
    }
}

/// The scope counts in a function trace at `pc`.
pub open spec fn on_trace(s: ScopeCacheNode, pc: u64) -> bool {
    ranges_contain(s.ranges@, pc) && (s.scope is Inlined || s.scope is Function)
}

/// The functions and inlined calls that hold `pc`, in order.
pub open spec fn trace_of(scopes: Seq<ScopeCacheNode>, pc: u64) -> Seq<ScopeCacheNode>
    decreases scopes.len(),
{
    if scopes.len() == 0 {
        Seq::empty()
    } else if on_trace(scopes.last(), pc) {
        trace_of(scopes.drop_last(), pc).push(scopes.last())
    } else {
        trace_of(scopes.drop_last(), pc)
    }
}

/// The variables a scope contributes for a query.
pub open spec fn scope_params(s: ScopeCacheNode, param_type: ParamType) -> Seq<DebugVariable> {
    match param_type {
        ParamType::Variable => s.variables@,
        ParamType::Argument => s.args@,
        ParamType::All => s.variables@ + s.args@,
    }
}

/// The variables of all scopes that hold `pc`, in scope order.
pub open spec fn params_at(scopes: Seq<ScopeCacheNode>, pc: u64, param_type: ParamType) -> Seq<DebugVariable>
    decreases scopes.len(),
{
    if scopes.len() == 0 {
        Seq::empty()
    } else if ranges_contain(scopes.last().ranges@, pc) {
        params_at(scopes.drop_last(), pc, param_type) + scope_params(scopes.last(), param_type)
    } else {
        params_at(scopes.drop_last(), pc, param_type)
    }
}

/// The frame-base program of the last function with one among the scopes that hold `pc`.
pub open spec fn frame_base_at(scopes: Seq<ScopeCacheNode>, pc: u64) -> Option<Seq<u8>>
    decreases scopes.len(),
{
    if scopes.len() == 0 {
        None
    } else if ranges_contain(scopes.last().ranges@, pc) && (scopes.last().scope matches ExecutionScope::Function { bytes: Some(_), .. }) {
        Some(scopes.last().scope->bytes.unwrap()@)
    } else {
        frame_base_at(scopes.drop_last(), pc)
    }
}

/// Everything the debugger knows from the binary's debug information.
#[derive(Debug)]
pub struct DebuggerMetadataCache {
    /// All scopes (functions, inlined calls, blocks), each once at the top level.
    pub execution_scopes: Vec<ScopeCacheNode>,
    /// The types by the offset of their entry.
    pub type_index: FxHashMap<usize, TypeCacheNode>,
    pub base_addresses: SectionBases,
    pub text_address: u64,
    pub encoding: Option<UnitEncoding>,
    pub endian: Endianness,
    pub abi: Abi,
}

impl DebuggerMetadataCache {
    /// A cache that knows nothing yet.
    pub fn empty() -> (r: Self)
        ensures
            r.execution_scopes@.len() == 0,
            r.type_index@.dom().is_empty(),
            r.text_address == 0,
            r.encoding is None,
    {
        DebuggerMetadataCache {
            execution_scopes: Vec::new(),
            type_index: crate::fxmap::fx_new(),
            base_addresses: SectionBases { text: 0, got: 0, eh_frame: 0 },
            text_address: 0,
            encoding: None,
            endian: Endianness::Little,
            abi: Abi::SystemV,
        }
    }

    /// Whether the pc lies in inlined code.
    pub fn is_in_inline(&self, pc: u64) -> (r: bool)
        ensures
            r == inline_at(self.execution_scopes@, pc, 0),
    {
        let n = self.execution_scopes.len();
        let mut i: usize = 0;
        while i < n
            invariant
                n == self.execution_scopes@.len(),
                i <= n,
                inline_at(self.execution_scopes@, pc, 0) == inline_at(
                    self.execution_scopes@,
                    pc,
                    i as int,
                ),
            decreases n - i,
        {
            let scope = &self.execution_scopes[i];
            if scope.is_in_scope(pc) {
                proof {
                    lemma_active_iff_in_scope(*scope, pc);
                }
                if scope.find_active_scope(pc).is_some() {
                    if scope.scope.is_func() {
                        return false;
                    }
                    if scope.scope.is_inline() {
                        return true;
                    }
                }
            }
            i = i + 1;
        }
        true
    }

    /// The functions and inlined calls that hold the pc, in the order of the scope list.
    pub fn get_function_trace(&self, pc: u64) -> (r: Vec<&ScopeCacheNode>)
        ensures
            r@.len() == trace_of(self.execution_scopes@, pc).len(),
            forall|i: int| 0 <= i < r@.len() ==> *r@[i] == trace_of(self.execution_scopes@, pc)[i],
    {
        let mut scopes: Vec<&ScopeCacheNode> = Vec::new();
        let n = self.execution_scopes.len();
        let mut i: usize = 0;
        while i < n
            invariant
                n == self.execution_scopes@.len(),
                i <= n,
                scopes@.len() == trace_of(self.execution_scopes@.take(i as int), pc).len(),
                forall|k: int|
                    0 <= k < scopes@.len() ==> *scopes@[k] == trace_of(
                        self.execution_scopes@.take(i as int),
                        pc,
                    )[k],
            decreases n - i,
        {
            let scope = &self.execution_scopes[i];
            assert(self.execution_scopes@.take(i + 1).drop_last() =~= self.execution_scopes@.take(
                i as int,
            ));
            assert(self.execution_scopes@.take(i + 1).last() == *scope);
            if scope.is_in_scope(pc) {
                proof {
                    lemma_active_iff_in_scope(*scope, pc);
                }
                if scope.find_active_scope(pc).is_some() {
                    if scope.scope.is_inline() {
                        scopes.push(scope);
                    } else if scope.scope.is_func() {
                        scopes.push(scope);
                    }
                }
            }
            i = i + 1;
        }
        assert(self.execution_scopes@.take(n as int) =~= self.execution_scopes@);
        scopes
    }

    /// The variables (or arguments, or both) of every scope that holds the pc,
    /// and the frame-base program of the last such function that has one.
    pub fn find_scope_by_pc(&self, pc: u64, param_type: ParamType) -> (r: ActiveParamsContext<'_>)
        ensures
            r.params@.len() == params_at(self.execution_scopes@, pc, param_type).len(),
            forall|i: int|
                0 <= i < r.params@.len() ==> *r.params@[i] == params_at(
                    self.execution_scopes@,
                    pc,
                    param_type,
                )[i],
            match frame_base_at(self.execution_scopes@, pc) {
                Some(b) => r.frame_base matches Some(x) && x@ == b,
                None => r.frame_base is None,
            },
    {
        let mut params: Vec<&DebugVariable> = Vec::new();
        let mut frame_base: Option<&Vec<u8>> = None;
        let n = self.execution_scopes.len();
        let mut i: usize = 0;
        while i < n
            invariant
                n == self.execution_scopes@.len(),
                i <= n,
                params@.len() == params_at(self.execution_scopes@.take(i as int), pc, param_type).len(),
                forall|k: int|
                    0 <= k < params@.len() ==> *params@[k] == params_at(
                        self.execution_scopes@.take(i as int),
                        pc,
                        param_type,
                    )[k],
                match frame_base_at(self.execution_scopes@.take(i as int), pc) {
                    Some(b) => frame_base matches Some(x) && x@ == b,
                    None => frame_base is None,
                },
            decreases n - i,
        {
            let scope = &self.execution_scopes[i];
            let ghost prev = params@;
            assert(self.execution_scopes@.take(i + 1).drop_last() =~= self.execution_scopes@.take(
                i as int,
            ));
            assert(self.execution_scopes@.take(i + 1).last() == *scope);
            if scope.is_in_scope(pc) {
                if let Some(bytes) = scope.scope.get_bytes() {
                    frame_base = Some(bytes);
                }
                proof {
                    lemma_active_iff_in_scope(*scope, pc);
                }
                if scope.find_active_scope(pc).is_some() {
                    match param_type {
                        ParamType::Variable => {
                            push_refs(&mut params, &scope.variables);
                        },
                        ParamType::Argument => {
                            push_refs(&mut params, &scope.args);
                        },
                        ParamType::All => {
                            push_refs(&mut params, &scope.variables);
                            push_refs(&mut params, &scope.args);
                        },
                    }
                }
                assert forall|k: int| 0 <= k < params@.len() implies *params@[k] == params_at(
                    self.execution_scopes@.take(i + 1),
                    pc,
                    param_type,
                )[k] by {
                    if k < prev.len() {
                    } else {
                    }
                }
            }
            i = i + 1;
        }
        assert(self.execution_scopes@.take(n as int) =~= self.execution_scopes@);
        ActiveParamsContext { params, frame_base }
    }
}

/// Appends a reference to each element of `vars`.
fn push_refs<'a>(out: &mut Vec<&'a DebugVariable>, vars: &'a Vec<DebugVariable>)
    ensures
        final(out)@.len() == old(out)@.len() + vars@.len(),
        forall|k: int| 0 <= k < old(out)@.len() ==> final(out)@[k] == old(out)@[k],
        forall|k: int| 0 <= k < vars@.len() ==> *final(out)@[old(out)@.len() + k] == vars@[k],
{
    let n = vars.len();
    let mut i: usize = 0;
    while i < n
        invariant
            n == vars@.len(),
            i <= n,
            out@.len() == old(out)@.len() + i,
            forall|k: int| 0 <= k < old(out)@.len() ==> out@[k] == old(out)@[k],
            forall|k: int| 0 <= k < i ==> *out@[old(out)@.len() + k] == vars@[k],
        decreases n - i,
    {
        out.push(&vars[i]);
        i = i + 1;
    }
}

} // verus!

verus! {

/// The raw `.eh_frame` section of the debuggee.
#[derive(Debug, Default, Clone)]
pub struct RawDebugFrame(pub Vec<u8>);

} // verus!
