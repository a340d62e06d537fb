use vstd::prelude::*;

verus! {

pub const OP_CLONE: u8 = 0;
pub const OP_CONSTANT: u8 = 1;
pub const OP_ADDCONSTANT: u8 = 2;
pub const OP_SUBTRACTCONSTANT: u8 = 3;
pub const OP_DIVIDECONSTANT: u8 = 4;
pub const OP_MULTIPLYCONSTANT: u8 = 5;
pub const OP_EQCONSTANT: u8 = 6;
pub const OP_ADD: u8 = 7;
pub const OP_SUBTRACT: u8 = 8;
pub const OP_MULTIPLY: u8 = 9;
pub const OP_DIVIDE: u8 = 10;
pub const OP_ENDFN: u8 = 11;
pub const OP_CALL: u8 = 12;
pub const OP_CALLIMPLICIT: u8 = 13;
pub const OP_FUNCTION: u8 = 14;
pub const OP_VAR: u8 = 15;
pub const OP_SETVAR: u8 = 16;
pub const OP_GETVAR: u8 = 17;
pub const OP_SETLOCALVAR: u8 = 18;
pub const OP_GETLOCALVAR: u8 = 19;
pub const OP_GLVSHIFT: u8 = 20;
pub const OP_GLVCALL: u8 = 21;
pub const OP_POPLOCALVAR: u8 = 22;
pub const OP_JUMP: u8 = 23;
pub const OP_JUMPR: u8 = 24;
pub const OP_JUMPNE: u8 = 25;
pub const OP_JUMPNER: u8 = 26;
pub const OP_JUMPNEREQC: u8 = 27;
pub const OP_CMP: u8 = 28;
pub const OP_EQ: u8 = 29;
pub const OP_GT: u8 = 30;
pub const OP_LT: u8 = 31;
pub const OP_PRINT: u8 = 32;
pub const OP_DUP: u8 = 33;
pub const OP_SWAP: u8 = 34;
pub const OP_DROP: u8 = 35;
pub const OP_ROT: u8 = 36;
pub const OP_OVER: u8 = 37;
pub const OP_DEPTH: u8 = 38;
pub const OP_CLEAR: u8 = 39;
pub const OP_STARTLIST: u8 = 40;
pub const OP_ENDLIST: u8 = 41;
pub const OP_STARTHASH: u8 = 42;
pub const OP_STARTSET: u8 = 43;
pub const OP_SHIFT: u8 = 44;
pub const OP_YIELD: u8 = 45;
pub const OP_ISNULL: u8 = 46;
pub const OP_ISLIST: u8 = 47;
pub const OP_ISCALLABLE: u8 = 48;
pub const OP_ISSHIFTABLE: u8 = 49;
pub const OP_OPEN: u8 = 50;
pub const OP_READLINE: u8 = 51;
pub const OP_ERROR: u8 = 52;
pub const OP_RETURN: u8 = 53;
pub const OP_STR: u8 = 54;
pub const OP_INT: u8 = 55;
pub const OP_FLT: u8 = 56;
pub const OP_RAND: u8 = 57;
pub const OP_PUSH: u8 = 58;
pub const OP_POP: u8 = 59;
pub const OP_DUPISNULL: u8 = 60;
pub const OP_TOGGLEMODE: u8 = 61;
pub const OP_PRINTSTACK: u8 = 62;
pub const OP_TOFUNCTION: u8 = 63;
pub const OP_IMPORT: u8 = 64;
pub const OP_CALLCONSTANT: u8 = 65;
pub const OP_CALLIMPLICITCONSTANT: u8 = 66;
pub const OP_BOOL: u8 = 67;
pub const OP_ISBOOL: u8 = 68;
pub const OP_ISINT: u8 = 69;
pub const OP_ISBIGINT: u8 = 70;
pub const OP_ISSTR: u8 = 71;
pub const OP_ISFLT: u8 = 72;
pub const OP_BIGINT: u8 = 73;

/// The number of opcodes; bytes from here on are unknown opcodes.
pub const OPCODE_COUNT: u8 = 74;

/// The number of operand bytes that follow an opcode: two for a constant
/// index or a jump offset, one for a local-variable index, four for a jump
/// with a constant.
pub open spec fn operand_width(op: u8) -> nat {
    if op == OP_SETLOCALVAR || op == OP_GETLOCALVAR || op == OP_GLVSHIFT || op == OP_GLVCALL {
        1
    } else if op == OP_CONSTANT || op == OP_ADDCONSTANT || op == OP_SUBTRACTCONSTANT || op == OP_DIVIDECONSTANT || op == OP_MULTIPLYCONSTANT || op == OP_EQCONSTANT || op == OP_JUMP || op == OP_JUMPR || op == OP_JUMPNE || op == OP_JUMPNER || op == OP_CALLCONSTANT || op == OP_CALLIMPLICITCONSTANT {
        2
    } else if op == OP_JUMPNEREQC {
        4
    } else {
        0
    }
}

/// The operand width of an opcode.
pub fn operand_width_of(op: u8) -> (r: usize)
    ensures
        r == operand_width(op),
{
    if op == OP_SETLOCALVAR || op == OP_GETLOCALVAR || op == OP_GLVSHIFT || op == OP_GLVCALL {
        1
    } else if op == OP_CONSTANT || op == OP_ADDCONSTANT || op == OP_SUBTRACTCONSTANT || op == OP_DIVIDECONSTANT || op == OP_MULTIPLYCONSTANT || op == OP_EQCONSTANT || op == OP_JUMP || op == OP_JUMPR || op == OP_JUMPNE || op == OP_JUMPNER || op == OP_CALLCONSTANT || op == OP_CALLIMPLICITCONSTANT {
        2
    } else if op == OP_JUMPNEREQC {
        4
    } else {
        0
    }
}

/// The mnemonic of an opcode.
pub open spec fn mnemonic(op: u8) -> Seq<char> {
    match op {
        0 => "OP_CLONE"@,
        1 => "OP_CONSTANT"@,
        2 => "OP_ADDCONSTANT"@,
        3 => "OP_SUBTRACTCONSTANT"@,
        4 => "OP_DIVIDECONSTANT"@,
        5 => "OP_MULTIPLYCONSTANT"@,
        6 => "OP_EQCONSTANT"@,
        7 => "OP_ADD"@,
        8 => "OP_SUBTRACT"@,
        9 => "OP_MULTIPLY"@,
        10 => "OP_DIVIDE"@,
        11 => "OP_ENDFN"@,
        12 => "OP_CALL"@,
        13 => "OP_CALLIMPLICIT"@,
        14 => "OP_FUNCTION"@,
        15 => "OP_VAR"@,
        16 => "OP_SETVAR"@,
        17 => "OP_GETVAR"@,
        18 => "OP_SETLOCALVAR"@,
        19 => "OP_GETLOCALVAR"@,
        20 => "OP_GLVSHIFT"@,
        21 => "OP_GLVCALL"@,
        22 => "OP_POPLOCALVAR"@,
        23 => "OP_JUMP"@,
        24 => "OP_JUMPR"@,
        25 => "OP_JUMPNE"@,
        26 => "OP_JUMPNER"@,
        27 => "OP_JUMPNEREQC"@,
        28 => "OP_CMP"@,
        29 => "OP_EQ"@,
        30 => "OP_GT"@,
        31 => "OP_LT"@,
        32 => "OP_PRINT"@,
        33 => "OP_DUP"@,
        34 => "OP_SWAP"@,
        35 => "OP_DROP"@,
        36 => "OP_ROT"@,
        37 => "OP_OVER"@,
        38 => "OP_DEPTH"@,
        39 => "OP_CLEAR"@,
        40 => "OP_STARTLIST"@,
        41 => "OP_ENDLIST"@,
        42 => "OP_STARTHASH"@,
        43 => "OP_STARTSET"@,
        44 => "OP_SHIFT"@,
        45 => "OP_YIELD"@,
        46 => "OP_ISNULL"@,
        47 => "OP_ISLIST"@,
        48 => "OP_ISCALLABLE"@,
        49 => "OP_ISSHIFTABLE"@,
        50 => "OP_OPEN"@,
        51 => "OP_READLINE"@,
        52 => "OP_ERROR"@,
        53 => "OP_RETURN"@,
        54 => "OP_STR"@,
        55 => "OP_INT"@,
        56 => "OP_FLT"@,
        57 => "OP_RAND"@,
        58 => "OP_PUSH"@,
        59 => "OP_POP"@,
        60 => "OP_DUPISNULL"@,
        61 => "OP_TOGGLEMODE"@,
        62 => "OP_PRINTSTACK"@,
        63 => "OP_TOFUNCTION"@,
        64 => "OP_IMPORT"@,
        65 => "OP_CALLCONSTANT"@,
        66 => "OP_CALLIMPLICITCONSTANT"@,
        67 => "OP_BOOL"@,
        68 => "OP_ISBOOL"@,
        69 => "OP_ISINT"@,
        70 => "OP_ISBIGINT"@,
        71 => "OP_ISSTR"@,
        72 => "OP_ISFLT"@,
        73 => "OP_BIGINT"@,
        _ => "(Unknown)"@,
    }
}

/// The mnemonic of an opcode.
pub fn opcode_name(op: u8) -> (r: &'static str)
    ensures
        r@ == mnemonic(op),
{
    match op {
        0 => "OP_CLONE",
        1 => "OP_CONSTANT",
        2 => "OP_ADDCONSTANT",
        3 => "OP_SUBTRACTCONSTANT",
        4 => "OP_DIVIDECONSTANT",
        5 => "OP_MULTIPLYCONSTANT",
        6 => "OP_EQCONSTANT",
        7 => "OP_ADD",
        8 => "OP_SUBTRACT",
        9 => "OP_MULTIPLY",
        10 => "OP_DIVIDE",
        11 => "OP_ENDFN",
        12 => "OP_CALL",
        13 => "OP_CALLIMPLICIT",
        14 => "OP_FUNCTION",
        15 => "OP_VAR",
        16 => "OP_SETVAR",
        17 => "OP_GETVAR",
        18 => "OP_SETLOCALVAR",
        19 => "OP_GETLOCALVAR",
        20 => "OP_GLVSHIFT",
        21 => "OP_GLVCALL",
        22 => "OP_POPLOCALVAR",
        23 => "OP_JUMP",
        24 => "OP_JUMPR",
        25 => "OP_JUMPNE",
        26 => "OP_JUMPNER",
        27 => "OP_JUMPNEREQC",
        28 => "OP_CMP",
        29 => "OP_EQ",
        30 => "OP_GT",
        31 => "OP_LT",
        32 => "OP_PRINT",
        33 => "OP_DUP",
        34 => "OP_SWAP",
        35 => "OP_DROP",
        36 => "OP_ROT",
        37 => "OP_OVER",
        38 => "OP_DEPTH",
        39 => "OP_CLEAR",
        40 => "OP_STARTLIST",
        41 => "OP_ENDLIST",
        42 => "OP_STARTHASH",
        43 => "OP_STARTSET",
        44 => "OP_SHIFT",
        45 => "OP_YIELD",
        46 => "OP_ISNULL",
        47 => "OP_ISLIST",
        48 => "OP_ISCALLABLE",
        49 => "OP_ISSHIFTABLE",
        50 => "OP_OPEN",
        51 => "OP_READLINE",
        52 => "OP_ERROR",
        53 => "OP_RETURN",
        54 => "OP_STR",
        55 => "OP_INT",
        56 => "OP_FLT",
        57 => "OP_RAND",
        58 => "OP_PUSH",
        59 => "OP_POP",
        60 => "OP_DUPISNULL",
        61 => "OP_TOGGLEMODE",
        62 => "OP_PRINTSTACK",
        63 => "OP_TOFUNCTION",
        64 => "OP_IMPORT",
        65 => "OP_CALLCONSTANT",
        66 => "OP_CALLIMPLICITCONSTANT",
        67 => "OP_BOOL",
        68 => "OP_ISBOOL",
        69 => "OP_ISINT",
        70 => "OP_ISBIGINT",
        71 => "OP_ISSTR",
        72 => "OP_ISFLT",
        73 => "OP_BIGINT",
        _ => "(Unknown)",
    }
}

} // verus!
