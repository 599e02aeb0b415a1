//! Packing a superwidget project into a `.superwidget` archive: the command
//! line it takes and the module it stores. The archive itself is written by
//! the program.
use vstd::prelude::*;
use crate::text::str_equal;

verus! {

/// What `wat::parse_bytes` gives for a module's bytes: the binary module, or
/// the text of the error.
pub uninterp spec fn wat_module(bytes: Seq<u8>) -> Result<Seq<u8>, Seq<char>>;

/// The bytes that open every binary WebAssembly module.
pub open spec fn wasm_magic() -> Seq<u8> {
    seq![0u8, 0x61u8, 0x73u8, 0x6du8]
}

/// Whether bytes open with the binary magic.
pub open spec fn starts_with_magic(bytes: Seq<u8>) -> bool {
    bytes.len() >= 4 && bytes.subrange(0, 4) == wasm_magic()
}

/// `wat::parse_bytes`: WebAssembly text compiled to a binary module; input
/// that already starts with the binary magic "\0asm" is returned unchanged.
#[verifier::external_body]
fn compile_wat(bytes: &[u8]) -> (compiled: Result<Vec<u8>, String>)
    ensures
        match compiled {
            Ok(m) => wat_module(bytes@) == Ok::<Seq<u8>, Seq<char>>(m@),
            Err(e) => wat_module(bytes@) == Err::<Seq<u8>, Seq<char>>(e@),
        },
        starts_with_magic(bytes@) ==> compiled is Ok && compiled->Ok_0@ == bytes@,
{
    wat::parse_bytes(bytes).map(|module| module.into_owned()).map_err(|error| error.to_string())
}

/// Where the module of a project comes from.
#[derive(Clone, Copy, Debug, PartialEq, Eq, Structural)]
pub enum PackMode {
    /// `pack`: the project's compiled `widget.wasm`.
    Binary,
    /// `pack-wat`: the project's `widget.wat`, compiled while packing.
    Text,
}

/// A request to pack a project.
pub struct PackRequest {
    pub mode: PackMode,
    pub project: String,
    pub output: String,
}

/// The answer to a malformed command line.
pub open spec fn pack_usage() -> Seq<char> {
    "Usage: telemetryforge-superwidget <pack|pack-wat> <project-dir> <output.superwidget>"@
}

/// The request a command line (without the program name) makes: exactly
/// three arguments, the first "pack" or "pack-wat".
pub open spec fn pack_request_of(args: Seq<Seq<char>>) -> Option<(PackMode, Seq<char>, Seq<char>)> {
    if args.len() == 3 && (args[0] == "pack"@ || args[0] == "pack-wat"@) {
        Some((if args[0] == "pack-wat"@ { PackMode::Text } else { PackMode::Binary }, args[1], args[2]))
    } else {
        None
    }
}

/// Reads the command line (see `pack_request_of`); otherwise the usage text.
pub fn parse_pack_arguments(args: &Vec<String>) -> (request: Result<PackRequest, String>)
    ensures
        match request {
            Ok(r) => pack_request_of(crate::sorting::texts(args@)) == Some((r.mode, r.project@, r.output@)),
            Err(e) => pack_request_of(crate::sorting::texts(args@)) is None && e@ == pack_usage(),
        },
{
    let ghost texts = crate::sorting::texts(args@);
    if args.len() != 3 {
        return Err(String::from_str(
            "Usage: telemetryforge-superwidget <pack|pack-wat> <project-dir> <output.superwidget>",
        ));
    }
    assert(texts[0] == args@[0]@ && texts[1] == args@[1]@ && texts[2] == args@[2]@);
    let text = str_equal(args[0].as_str(), "pack-wat");
    if !text && !str_equal(args[0].as_str(), "pack") {
        return Err(String::from_str(
            "Usage: telemetryforge-superwidget <pack|pack-wat> <project-dir> <output.superwidget>",
        ));
    }
    Ok(PackRequest {
        mode: if text { PackMode::Text } else { PackMode::Binary },
        project: args[1].clone(),
        output: args[2].clone(),
    })
}

/// The module stored in the archive: a binary module as it is, a text
/// module compiled.
pub fn widget_module(mode: PackMode, contents: Vec<u8>) -> (module: Result<Vec<u8>, String>)
    ensures
        mode == PackMode::Binary ==> (module matches Ok(m) && m@ == contents@),
        mode == PackMode::Text ==> match module {
            Ok(m) => wat_module(contents@) == Ok::<Seq<u8>, Seq<char>>(m@),
            Err(e) => wat_module(contents@) == Err::<Seq<u8>, Seq<char>>(e@),
        },
{
    match mode {
        PackMode::Binary => Ok(contents),
        PackMode::Text => compile_wat(contents.as_slice()),
    }
}

} // verus!
