//! Project configuration: target stacks, database choices and template
//! sources.
//!
//! The template URLs and the placeholder module identifier are injected at
//! startup rather than embedded in the library, so one configuration value
//! drives every stack-specific decision downstream.

use vstd::prelude::*;

use crate::bytes::{append_all, append_range, bytes_eq, copy_bytes};

verus! {

/// A supported target ecosystem.
#[derive(Clone, Copy, Debug, PartialEq, Eq, Structural)]
pub enum Stack {
    Go,
    Rust,
    Frontend,
}

/// The database variant a Go project is wired for.
#[derive(Clone, Copy, Debug, PartialEq, Eq, Structural)]
pub enum Database {
    MongoDb,
    PostgreSql,
}

/// How a Rust project is set up: a native minimal skeleton, or the full
/// starter template fetched from the template source.
#[derive(Clone, Copy, Debug, PartialEq, Eq, Structural)]
pub enum RustVariant {
    Basic,
    FullTemplate,
}

/// The immutable stack-to-template-source mapping plus the placeholder
/// module identifier the Go template carries, resolved once at startup.
pub struct TemplateConfig {
    pub go_url: Vec<u8>,
    pub rust_url: Vec<u8>,
    pub frontend_url: Vec<u8>,
    pub placeholder_module: Vec<u8>,
}

/// The template source a stack is fetched from.
pub fn template_url<'a>(cfg: &'a TemplateConfig, stack: Stack) -> (r: &'a Vec<u8>)
    ensures
        r@ == match stack {
            Stack::Go => cfg.go_url@,
            Stack::Rust => cfg.rust_url@,
            Stack::Frontend => cfg.frontend_url@,
        },
{
    match stack {
        Stack::Go => &cfg.go_url,
        Stack::Rust => &cfg.rust_url,
        Stack::Frontend => &cfg.frontend_url,
    }
}

/// `base` and `name` joined with a path separator; a base already ending
/// in the separator, or empty, gets none added.
pub open spec fn join_path_spec(base: Seq<u8>, name: Seq<u8>) -> Seq<u8> {
    if base.len() == 0 {
        name
    } else if base[base.len() - 1] == 47 {
        base + name
    } else {
        base + seq![47u8] + name
    }
}

/// Joins a directory and an entry name into one path.
pub fn join_path(base: &Vec<u8>, name: &Vec<u8>) -> (r: Vec<u8>)
    ensures
        r@ == join_path_spec(base@, name@),
{
    if base.len() == 0 {
        return copy_bytes(name);
    }
    let mut out = copy_bytes(base);
    if base[base.len() - 1] != 47 {
        out.push(47);
        proof {
            assert(out@ =~= base@ + seq![47u8]);
        }
    }
    append_all(&mut out, name);
    out
}

/// A leading `~` alone, or `~/`, stands for the home directory; any other
/// input is kept as it is.
pub open spec fn expand_tilde_spec(input: Seq<u8>, home: Seq<u8>) -> Seq<u8> {
    if input =~= seq![126u8] {
        home
    } else if input.len() >= 2 && input[0] == 126 && input[1] == 47 {
        home + input.skip(1)
    } else {
        input
    }
}

/// Expands a leading `~` in a user-supplied path to the home directory.
pub fn expand_tilde(input: &Vec<u8>, home: &Vec<u8>) -> (r: Vec<u8>)
    ensures
        r@ == expand_tilde_spec(input@, home@),
{
    if input.len() == 1 && input[0] == 126 {
        proof {
            assert(input@ =~= seq![126u8]);
        }
        return copy_bytes(home);
    }
    if input.len() >= 2 && input[0] == 126 && input[1] == 47 {
        let mut out = copy_bytes(home);
        append_range(&mut out, input, 1, input.len());
        proof {
            assert(input@.subrange(1, input@.len() as int) =~= input@.skip(1));
        }
        return out;
    }
    proof {
        if input@ =~= seq![126u8] {
            assert(input@.len() == 1 && input@[0] == 126);
        }
    }
    copy_bytes(input)
}

/// The keyword naming a stack on the command line.
pub open spec fn stack_keyword_spec(stack: Stack) -> Seq<u8> {
    match stack {
        Stack::Go => seq![103u8, 111u8],
        Stack::Rust => seq![114u8, 117u8, 115u8, 116u8],
        Stack::Frontend => seq![114u8, 101u8, 97u8, 99u8, 116u8],
    }
}

/// The bytes of a stack's command-line keyword.
pub fn stack_keyword(stack: Stack) -> (r: Vec<u8>)
    ensures
        r@ == stack_keyword_spec(stack),
{
    let mut v: Vec<u8> = Vec::new();
    match stack {
        Stack::Go => {
            v.push(103);
            v.push(111);
            proof {
                assert(v@ =~= stack_keyword_spec(Stack::Go));
            }
        },
        Stack::Rust => {
            v.push(114);
            v.push(117);
            v.push(115);
            v.push(116);
            proof {
                assert(v@ =~= stack_keyword_spec(Stack::Rust));
            }
        },
        Stack::Frontend => {
            v.push(114);
            v.push(101);
            v.push(97);
            v.push(99);
            v.push(116);
            proof {
                assert(v@ =~= stack_keyword_spec(Stack::Frontend));
            }
        },
    }
    v
}

/// Reads a stack keyword; an unsupported keyword selects no stack, which
/// the caller reports without failing the process.
pub fn parse_stack(name: &Vec<u8>) -> (r: Option<Stack>)
    ensures
        match r {
            Some(stack) => name@ == stack_keyword_spec(stack),
            None => name@ != stack_keyword_spec(Stack::Go) && name@ != stack_keyword_spec(
                Stack::Rust,
            ) && name@ != stack_keyword_spec(Stack::Frontend),
        },
{
    let go = stack_keyword(Stack::Go);
    let rust = stack_keyword(Stack::Rust);
    let react = stack_keyword(Stack::Frontend);
    if bytes_eq(name, &go) {
        Some(Stack::Go)
    } else if bytes_eq(name, &rust) {
        Some(Stack::Rust)
    } else if bytes_eq(name, &react) {
        Some(Stack::Frontend)
    } else {
        None
    }
}

/// The stack offered at position `selection` of the interactive list.
pub fn stack_from_selection(selection: usize) -> (r: Option<Stack>)
    ensures
        r == (if selection == 0 {
            Some(Stack::Go)
        } else if selection == 1 {
            Some(Stack::Rust)
        } else if selection == 2 {
            Some(Stack::Frontend)
        } else {
            None::<Stack>
        }),
{
    if selection == 0 {
        Some(Stack::Go)
    } else if selection == 1 {
        Some(Stack::Rust)
    } else if selection == 2 {
        Some(Stack::Frontend)
    } else {
        None
    }
}

/// The database offered at position `selection` of the interactive list.
pub fn database_from_selection(selection: usize) -> (r: Option<Database>)
    ensures
        r == (if selection == 0 {
            Some(Database::MongoDb)
        } else if selection == 1 {
            Some(Database::PostgreSql)
        } else {
            None::<Database>
        }),
{
    if selection == 0 {
        Some(Database::MongoDb)
    } else if selection == 1 {
        Some(Database::PostgreSql)
    } else {
        None
    }
}

/// The Rust project variant offered at position `selection`.
pub fn variant_from_selection(selection: usize) -> (r: Option<RustVariant>)
    ensures
        r == (if selection == 0 {
            Some(RustVariant::Basic)
        } else if selection == 1 {
            Some(RustVariant::FullTemplate)
        } else {
            None::<RustVariant>
        }),
{
    if selection == 0 {
        Some(RustVariant::Basic)
    } else if selection == 1 {
        Some(RustVariant::FullTemplate)
    } else {
        None
    }
}

} // verus!
