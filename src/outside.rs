//! The chess engine's types that the library's contracts speak of. Its enums
//! are plain values and are declared with their variants.
use vstd::prelude::*;
use shakmaty::{File as EngineFile, Move as EngineMove, Rank as EngineRank, Square as EngineSquare};

verus! {

#[verifier::external_type_specification]
pub struct ExRole(shakmaty::Role);

#[verifier::external_type_specification]
pub struct ExFile(EngineFile);

#[verifier::external_type_specification]
pub struct ExRank(EngineRank);

#[verifier::external_type_specification]
pub struct ExSquare(EngineSquare);

#[verifier::external_type_specification]
pub struct ExCastlingSide(shakmaty::CastlingSide);

#[verifier::external_type_specification]
pub struct ExColor(shakmaty::Color);

#[verifier::external_type_specification]
pub struct ExKnownOutcome(shakmaty::KnownOutcome);

#[verifier::external_type_specification]
pub struct ExOutcome(shakmaty::Outcome);

#[verifier::external_type_specification]
pub struct ExEngineMove(EngineMove);

#[verifier::external_type_specification]
pub struct ExSan(shakmaty::san::San);

#[verifier::external_type_specification]
pub struct ExSanError(shakmaty::san::SanError);


} // verus!
