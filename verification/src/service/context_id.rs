//! Database ids for records that the special paths create: the configured
//! generator's id where it gives a usable one, else a random one.

use crate::service::two_factor::{alphanumeric, random_alphanumeric};
use crate::text::string_from_chars;
use vstd::prelude::*;

verus! {

/// When a generated id is rejected in favour of a random one.
#[derive(Clone, Copy, Debug, PartialEq, Eq, Structural)]
pub enum ContextIdFallback {
    /// Only where the generator defers.
    DeferOnly,
    /// Also where it gives an empty id, as a falsy value in JavaScript is.
    Falsey,
}

/// What the configured id generator answered for a model.
#[derive(Clone, Debug)]
pub enum DatabaseIdGenerationResult {
    Id(String),
    Defer,
}

/// Whether the generator's answer is used as the id.
pub open spec fn generated_id_used(generated: DatabaseIdGenerationResult, fallback: ContextIdFallback) -> bool {
    match generated {
        DatabaseIdGenerationResult::Id(id) => fallback == ContextIdFallback::DeferOnly || id@.len() > 0,
        DatabaseIdGenerationResult::Defer => false,
    }
}

/// The size that an id generator is asked for.
#[derive(Clone, Copy, Debug, PartialEq, Eq, Structural)]
pub enum DatabaseIdGenerationSize {
    /// No size: the generator picks one.
    Undefined,
    /// This many characters.
    Value(usize),
}

/// Whether `r` is the id made from the generator's answer: that answer
/// where it is used, else `fallback_size` random letters and digits.
pub open spec fn special_id(
    generated: DatabaseIdGenerationResult,
    fallback: ContextIdFallback,
    fallback_size: usize,
    r: Seq<char>,
) -> bool {
    if generated_id_used(generated, fallback) {
        generated matches DatabaseIdGenerationResult::Id(id) && r == id@
    } else {
        &&& r.len() == fallback_size
        &&& forall|i: int| 0 <= i < r.len() ==> alphanumeric(#[trigger] r[i])
    }
}

impl crate::service::AuthService {
    /// The id of a new record of `model`: the configured generator is asked
    /// for one, for the model and with no size, and its answer is used where
    /// it gives an id (a non-empty one, under [`ContextIdFallback::Falsey`]);
    /// else the id is `fallback_size` random letters and digits.
    pub fn generate_special_database_id<G: Fn(&str, DatabaseIdGenerationSize) -> DatabaseIdGenerationResult>(
        &self,
        generator: G,
        model: &str,
        fallback: ContextIdFallback,
        fallback_size: usize,
    ) -> (r: String)
        requires
            call_requires(generator, (model, DatabaseIdGenerationSize::Undefined)),
        ensures
            exists|g: DatabaseIdGenerationResult|
                call_ensures(generator, (model, DatabaseIdGenerationSize::Undefined), g) && special_id(
                    g,
                    fallback,
                    fallback_size,
                    r@,
                ),
    {
        let generated = generator(model, DatabaseIdGenerationSize::Undefined);
        self.special_database_id_from(generated, fallback, fallback_size)
    }

    /// The id of a new record made from the generator's answer `generated`.
    pub fn special_database_id_from(
        &self,
        generated: DatabaseIdGenerationResult,
        fallback: ContextIdFallback,
        fallback_size: usize,
    ) -> (r: String)
        ensures
            special_id(generated, fallback, fallback_size, r@),
            generated_id_used(generated, fallback) ==> (generated matches DatabaseIdGenerationResult::Id(id) && r@
                == id@),
            !generated_id_used(generated, fallback) ==> {
                &&& r@.len() == fallback_size
                &&& forall|i: int| 0 <= i < r@.len() ==> alphanumeric(#[trigger] r@[i])
            },
    {
        match generated {
            DatabaseIdGenerationResult::Id(id) => {
                if fallback == ContextIdFallback::DeferOnly || id.unicode_len() > 0 {
                    return id;
                }
            },
            DatabaseIdGenerationResult::Defer => {},
        }
        let chars = random_alphanumeric(fallback_size);
        string_from_chars(&chars)
    }
}

} // verus!
