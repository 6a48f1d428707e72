//! The exact text of the transfer commands sent to the transfer session.

use vstd::prelude::*;

use crate::bytes::append_bytes;

verus! {

/// The byte `p`.
pub const LOWER_P: u8 = 112;

/// The byte `u`.
pub const LOWER_U: u8 = 117;

/// The byte `t`.
pub const LOWER_T: u8 = 116;

/// The space byte.
pub const SPACE: u8 = 32;

/// The double-quote byte.
pub const QUOTE: u8 = 34;

/// The newline byte.
pub const NEWLINE: u8 = 10;

/// The bytes of the transfer command for one changed file:
/// `put "<name>" <remote_path><name>` terminated by a newline.  The remote
/// path is used verbatim as a string prefix; a caller that needs a path
/// separator between prefix and name must include it in the prefix.
pub open spec fn put_command(name: Seq<u8>, remote_path: Seq<u8>) -> Seq<u8> {
    seq![LOWER_P, LOWER_U, LOWER_T, SPACE, QUOTE] + name + seq![QUOTE, SPACE] + remote_path
        + name + seq![NEWLINE]
}

/// Builds the transfer command for one changed file, byte for byte.
pub fn build_put_command(name: &Vec<u8>, remote_path: &Vec<u8>) -> (cmd: Vec<u8>)
    ensures
        cmd@ == put_command(name@, remote_path@),
{
    let mut cmd: Vec<u8> = Vec::new();
    cmd.push(LOWER_P);
    cmd.push(LOWER_U);
    cmd.push(LOWER_T);
    cmd.push(SPACE);
    cmd.push(QUOTE);
    append_bytes(&mut cmd, name);
    cmd.push(QUOTE);
    cmd.push(SPACE);
    append_bytes(&mut cmd, remote_path);
    append_bytes(&mut cmd, name);
    cmd.push(NEWLINE);
    assert(cmd@ =~= put_command(name@, remote_path@));
    cmd
}

} // verus!
