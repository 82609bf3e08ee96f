//! The decisions around the outside program that checks a client's proof.
//!
//! The proof is written to a fresh file, the program is run on it, the file
//! is removed, and the program's exit decides. Writing, running and removing
//! are the caller's work; what to write where, what to run, and what each
//! outcome means is decided here.

use vstd::prelude::*;
use vstd::string::StringExecFns;
use crate::error::Error;

verus! {

/// The name of the program that checks proofs.
pub const VERIFIER_PROGRAM: &'static str = "bb";

/// How one run of the program ended.
#[derive(Debug, Clone, Copy, PartialEq, Eq, Structural)]
pub enum Outcome {
    /// The proof could not be written to its file.
    WriteFailed,
    /// The file was written, but the program could not be started.
    SpawnFailed,
    /// The program ran and exited, with status zero or another.
    Exited { success: bool },
}

/// The path of the file for a proof: `temp_proof_` and the identifier, in
/// the directory.
pub open spec fn spec_proof_path(directory: Seq<char>, id: Seq<char>) -> Seq<char> {
    directory + seq!['/', 't', 'e', 'm', 'p', '_', 'p', 'r', 'o', 'o', 'f', '_'] + id
}

/// The arguments of the program: `verify -k <key> -p <proof>`.
pub open spec fn spec_arguments(key_path: Seq<char>, proof_path: Seq<char>) -> Seq<Seq<char>> {
    seq![
        seq!['v', 'e', 'r', 'i', 'f', 'y'],
        seq!['-', 'k'],
        key_path,
        seq!['-', 'p'],
        proof_path,
    ]
}

/// Calls `Uuid::new_v4` of `uuid` and writes it with its `Display`, which
/// is the hyphenated form of thirty-six characters. The identifier is
/// random; nothing else is known of it.
#[verifier::external_body]
fn fresh_id() -> (id: String)
    ensures
        id@.len() == 36,
{
    uuid::Uuid::new_v4().to_string()
}

/// The path of the file for a proof with a given identifier.
pub fn proof_path(directory: &str, id: &str) -> (path: String)
    ensures
        path@ == spec_proof_path(directory@, id@),
{
    proof {
        reveal_strlit("/temp_proof_");
        assert("/temp_proof_"@ =~= seq![
            '/', 't', 'e', 'm', 'p', '_', 'p', 'r', 'o', 'o', 'f', '_',
        ]);
    }
    String::from_str(directory).concat("/temp_proof_").concat(id)
}

/// The path of a fresh file for a proof, under an identifier drawn for it
/// alone.
pub fn fresh_proof_path(directory: &str) -> (path: String)
    ensures
        exists|id: Seq<char>|
            id.len() == 36 && path@ == #[trigger] spec_proof_path(directory@, id),
{
    let id = fresh_id();
    proof_path(directory, id.as_str())
}

/// The arguments to run the program with.
pub fn arguments(key_path: &str, proof_path: &str) -> (args: Vec<String>)
    ensures
        args@.len() == 5,
        forall|i: int|
            0 <= i < 5 ==> (#[trigger] args@[i])@ == spec_arguments(key_path@, proof_path@)[i],
{
    proof {
        reveal_strlit("verify");
        reveal_strlit("-k");
        reveal_strlit("-p");
    }
    let mut args: Vec<String> = Vec::new();
    args.push(String::from_str("verify"));
    args.push(String::from_str("-k"));
    args.push(String::from_str(key_path));
    args.push(String::from_str("-p"));
    args.push(String::from_str(proof_path));
    args
}

/// Whether the file of the proof is there to be removed after an outcome:
/// after every outcome but a failed write.
pub fn leaves_file(outcome: Outcome) -> (there: bool)
    ensures
        there == !(outcome is WriteFailed),
{
    match outcome {
        Outcome::WriteFailed => false,
        Outcome::SpawnFailed => true,
        Outcome::Exited { .. } => true,
    }
}

/// What an outcome means for the proof: it is valid exactly when the program
/// ran and exited with status zero; every other outcome is an invalid proof.
pub fn verdict(outcome: Outcome) -> (valid: Result<(), Error>)
    ensures
        valid is Ok <==> outcome == (Outcome::Exited { success: true }),
        valid matches Err(e) ==> e is InvalidProof,
{
    match outcome {
        Outcome::Exited { success } => if success {
            Ok(())
        } else {
            Err(Error::InvalidProof)
        },
        _ => Err(Error::InvalidProof),
    }
}

} // verus!
