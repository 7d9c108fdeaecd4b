//! The files of a generated detector crate.

use vstd::prelude::*;

use crate::text::{chars_of, push_char};

verus! {

/// `s` with every `from` replaced by `to`.
pub open spec fn replaced(s: Seq<char>, from: char, to: char) -> Seq<char> {
    s.map_values(|c: char| if c == from { to } else { c })
}

/// `s` with every `from` replaced by `to` (std's `str::replace` with one
/// character for another).
pub fn replace_char(s: &str, from: char, to: char) -> (r: String)
    ensures
        r@ == replaced(s@, from, to),
{
    let v = chars_of(s);
    let mut r = String::new();
    let mut i: usize = 0;
    while i < v.len()
        invariant
            v@ == s@,
            i <= v.len(),
            r@ == replaced(v@.subrange(0, i as int), from, to),
        decreases v.len() - i,
    {
        let c = v[i];
        push_char(&mut r, if c == from { to } else { c });
        i = i + 1;
        assert(r@ =~= replaced(v@.subrange(0, i as int), from, to));
    }
    assert(v@.subrange(0, v.len() as int) =~= s@);
    r
}

/// The `rust-toolchain.toml` of a generated detector: stable Rust with the
/// component target.
pub fn detector_toolchain() -> (r: String)
    ensures
        r@ == "[toolchain]\nchannel = \"stable\"\ntargets = [\"wasm32-wasip2\"]\n"@,
{
    String::from_str("[toolchain]\nchannel = \"stable\"\ntargets = [\"wasm32-wasip2\"]\n")
}

/// The text of a generated detector's `Cargo.toml` for crate `name`.
pub open spec fn manifest_text(name: Seq<char>) -> Seq<char> {
    "[workspace]\n\n[package]\nname = \""@ + name
        + "\"\nversion = \"0.1.0\"\nedition = \"2021\"\n\n[lib]\ncrate-type = [\"cdylib\"]\n\n[dependencies]\nwit-bindgen-rt = { version = \"0.44.0\", features = [\"bitflags\"] }\n\n[package.metadata.component]\npackage = \"superstition:"@
        + replaced(name, '_', '-') + "\"\n"@
}

/// The `Cargo.toml` of a generated detector crate: a standalone workspace,
/// a `cdylib`, and a component package whose name uses dashes (WIT labels
/// do not take underscores).
pub fn detector_manifest(name: &str) -> (r: String)
    ensures
        r@ == manifest_text(name@),
{
    let mut r = String::from_str("[workspace]\n\n[package]\nname = \"");
    r.append(name);
    r.append(
        "\"\nversion = \"0.1.0\"\nedition = \"2021\"\n\n[lib]\ncrate-type = [\"cdylib\"]\n\n[dependencies]\nwit-bindgen-rt = { version = \"0.44.0\", features = [\"bitflags\"] }\n\n[package.metadata.component]\npackage = \"superstition:",
    );
    let wit_name = replace_char(name, '_', '-');
    r.append(wit_name.as_str());
    r.append("\"\n");
    r
}

/// The file name of the .wasm that a detector crate builds: the crate
/// name with dashes as underscores, and `.wasm`.
pub fn wasm_file_name(name: &str) -> (r: String)
    ensures
        r@ == replaced(name@, '-', '_') + ".wasm"@,
{
    let mut r = replace_char(name, '-', '_');
    r.append(".wasm");
    r
}

} // verus!
