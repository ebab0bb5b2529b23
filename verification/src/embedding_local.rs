//! Local embedding models: their names, and what goes in and out of them.

use crate::error::{ErrorModel, NanoError};
use crate::strings::{after_prefix, strip_prefix};
use crate::text::{cat2, decimal, decimal_u64};
use vstd::prelude::*;

verus! {

/// The number of tokens that a model is given.
pub const DEFAULT_MAX_LENGTH: usize = 256;

/// The repository of a model that is named `hf:<org>/<repo>`.
pub fn parse_hf_model_id(model: &str) -> (r: Option<String>)
    ensures
        match r {
            Some(id) => after_prefix(model@, "hf:"@) == Some(id@),
            None => after_prefix(model@, "hf:"@) is None,
        },
{
    strip_prefix(model, "hf:")
}

/// The name of the model of a repository.
pub fn hf_model_name(repo_id: &str) -> (r: String)
    ensures
        r@ == "hf:"@ + repo_id@,
{
    cat2("hf:", repo_id)
}

/// The name of a model leads back to its repository.
pub proof fn law_model_name_leads_back(repo_id: Seq<char>)
    ensures
        after_prefix("hf:"@ + repo_id, "hf:"@) == Some(repo_id),
{
    let name = "hf:"@ + repo_id;
    assert(name.take("hf:"@.len() as int) =~= "hf:"@);
    assert(name.skip("hf:"@.len() as int) =~= repo_id);
}

/// A sequence of a given length: cut, or filled up with zeros.
pub open spec fn fitted(v: Seq<i64>, len: nat) -> Seq<i64> {
    Seq::new(
        len,
        |i: int|
            if i < v.len() {
                v[i]
            } else {
                0
            },
    )
}

/// Cuts a vector to a length, or fills it up with zeros.
pub fn truncate_or_pad(vec: &mut Vec<i64>, len: usize)
    ensures
        final(vec)@ == fitted(old(vec)@, len as nat),
{
    let ghost before = vec@;
    vec.truncate(len);
    while vec.len() < len
        invariant
            vec@.len() <= len,
            forall|i: int|
                0 <= i < vec@.len() ==> #[trigger] vec@[i] == (if i < before.len() {
                    before[i]
                } else {
                    0
                }),
            before.len() <= vec@.len() || vec@.len() == len,
        decreases len - vec@.len(),
    {
        vec.push(0);
    }
    assert(vec@ =~= fitted(before, len as nat));
}

/// Fitting to a length that fits already changes nothing, and fitting twice is fitting once.
pub proof fn law_fitting_is_idempotent(v: Seq<i64>, len: nat)
    ensures
        fitted(v, len).len() == len,
        v.len() == len ==> fitted(v, len) == v,
        fitted(fitted(v, len), len) == fitted(v, len),
{
    assert(fitted(fitted(v, len), len) =~= fitted(v, len));
    if v.len() == len {
        assert(fitted(v, len) =~= v);
    }
}

/// What a model is given of a tokenized text.
#[derive(Debug)]
pub struct ModelInputs {
    pub ids: Vec<i64>,
    pub attention_mask: Vec<i64>,
    pub type_ids: Vec<i64>,
    /// The number of tokens that were cut off.
    pub truncated: usize,
}

/// Unsigned tokens as the signed ones of the model.
pub open spec fn widened(v: Seq<u32>) -> Seq<i64> {
    Seq::new(v.len(), |i: int| v[i] as i64)
}

fn widen(v: &Vec<u32>) -> (r: Vec<i64>)
    ensures
        r@ == widened(v@),
{
    let mut out: Vec<i64> = Vec::new();
    let mut i: usize = 0;
    while i < v.len()
        invariant
            i <= v@.len(),
            out@ == widened(v@).take(i as int),
        decreases v@.len() - i,
    {
        out.push(v[i] as i64);
        assert(widened(v@).take(i as int + 1) =~= widened(v@).take(i as int).push(
            v@[i as int] as i64,
        ));
        i = i + 1;
    }
    assert(widened(v@).take(v@.len() as int) =~= widened(v@));
    out
}

/// Fits a tokenized text to the length of a model.
pub fn prepare_inputs(ids: &Vec<u32>, attention_mask: &Vec<u32>, type_ids: &Vec<u32>, max_length: usize) -> (r:
    ModelInputs)
    ensures
        r.ids@ == fitted(widened(ids@), max_length as nat),
        r.attention_mask@ == fitted(widened(attention_mask@), max_length as nat),
        r.type_ids@ == fitted(widened(type_ids@), max_length as nat),
        r.truncated == (if ids@.len() > max_length {
            ids@.len() - max_length
        } else {
            0
        }),
{
    let truncated: usize = if ids.len() > max_length {
        ids.len() - max_length
    } else {
        0
    };
    let mut a = widen(ids);
    let mut b = widen(attention_mask);
    let mut c = widen(type_ids);
    truncate_or_pad(&mut a, max_length);
    truncate_or_pad(&mut b, max_length);
    truncate_or_pad(&mut c, max_length);
    ModelInputs { ids: a, attention_mask: b, type_ids: c, truncated }
}

/// The positions, among the first `n`, of the tokens that are not padding.
pub open spec fn counted(mask: Seq<i64>, n: int) -> Seq<usize>
    decreases n,
{
    if n <= 0 {
        Seq::empty()
    } else if mask[n - 1] == 0 {
        counted(mask, n - 1)
    } else {
        counted(mask, n - 1).push((n - 1) as usize)
    }
}

/// The positions of the tokens over which an embedding is averaged.
pub fn pooled_positions(mask: &Vec<i64>) -> (r: Vec<usize>)
    ensures
        r@ == counted(mask@, mask@.len() as int),
{
    let mut out: Vec<usize> = Vec::new();
    let mut i: usize = 0;
    while i < mask.len()
        invariant
            i <= mask@.len(),
            out@ == counted(mask@, i as int),
        decreases mask@.len() - i,
    {
        if mask[i] != 0 {
            out.push(i);
        }
        i = i + 1;
    }
    out
}

/// The numbers from position `i` on, each behind a comma but the first.
pub open spec fn listed(shape: Seq<usize>, i: int) -> Seq<char>
    decreases shape.len() - i,
{
    if i < 0 || i >= shape.len() {
        "]"@
    } else if i == 0 {
        decimal(shape[0] as nat) + listed(shape, 1)
    } else {
        ", "@ + decimal(shape[i] as nat) + listed(shape, i + 1)
    }
}

/// The dimension of an output of a given shape: its last extent, where there are two or
/// more.
pub open spec fn output_dim_of(shape: Seq<usize>) -> Result<usize, Seq<char>> {
    if shape.len() < 2 {
        Err("local embedding model output has unexpected shape: ["@ + listed(shape, 0))
    } else {
        Ok(shape.last())
    }
}

fn list_shape(shape: &Vec<usize>, i: usize) -> (r: String)
    requires
        i <= shape@.len(),
    ensures
        r@ == listed(shape@, i as int),
    decreases shape@.len() - i,
{
    if i >= shape.len() {
        return "]".to_owned();
    }
    let rest = list_shape(shape, i + 1);
    let number = decimal_u64(shape[i] as u64);
    if i == 0 {
        cat2(&number, &rest)
    } else {
        crate::text::cat3(", ", &number, &rest)
    }
}

/// The dimension of an output of a given shape.
pub fn output_dim(shape: &Vec<usize>) -> (r: Result<usize, NanoError>)
    ensures
        match r {
            Ok(d) => output_dim_of(shape@) == Ok::<usize, Seq<char>>(d),
            Err(e) => output_dim_of(shape@) matches Err(m) && e@ == ErrorModel::Execution(m),
        },
{
    if shape.len() < 2 {
        return Err(
            NanoError::Execution(
                cat2("local embedding model output has unexpected shape: [", &list_shape(shape, 0)),
            ),
        );
    }
    Ok(shape[shape.len() - 1])
}

} // verus!
