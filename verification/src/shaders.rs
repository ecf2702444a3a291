//! Shader classification and compiled shader code handling.
//!
//! Compiled SPIR-V shader files are streams of 32-bit words, so their
//! byte length must be a multiple of four; [`decode_shader_words`] checks
//! that property and reassembles the words.  Loading the files and
//! creating device shader modules from the words belongs to the embedding
//! program.

use vstd::bytes::{spec_u32_from_le_bytes, u32_from_le_bytes};
use vstd::prelude::*;
use vstd::string::StrSliceExecFns;

verus! {

/// Pipeline stage a shader belongs to.
#[derive(Debug, Clone, Copy, PartialEq, Eq, Structural)]
pub enum ShaderType {
    Vertex,
    Fragment,
    TesselationControl,
    TesselationEval,
    Geometry,
    Compute,
}

/// Reassemble the 32-bit words of a compiled shader from its bytes,
/// little-endian word by word, or nothing when the byte count is not a
/// multiple of four.
pub fn decode_shader_words(bytes: &[u8]) -> (r: Option<Vec<u32>>)
    ensures
        match r {
            Some(words) => {
                &&& bytes@.len() % 4 == 0
                &&& words@.len() == bytes@.len() / 4
                &&& forall|k: int|
                    0 <= k < words@.len() ==> words@[k] == spec_u32_from_le_bytes(
                        #[trigger] bytes@.subrange(4 * k, 4 * k + 4),
                    )
            },
            None => bytes@.len() % 4 != 0,
        },
{
    let n = bytes.len();
    if n % 4 != 0 {
        return None;
    }
    let mut words: Vec<u32> = Vec::new();
    let mut i: usize = 0;
    while i < n
        invariant
            n == bytes@.len(),
            n % 4 == 0,
            i % 4 == 0,
            i <= n,
            words@.len() == i / 4,
            forall|k: int|
                0 <= k < words@.len() ==> words@[k] == spec_u32_from_le_bytes(
                    #[trigger] bytes@.subrange(4 * k, 4 * k + 4),
                ),
        decreases n - i,
    {
        let word = u32_from_le_bytes(&bytes[i..i + 4]);
        words.push(word);
        i += 4;
        proof {
            assert(bytes@.subrange(i - 4, i as int) == bytes@.subrange(
                4 * (i / 4 - 1),
                4 * (i / 4 - 1) + 4,
            ));
        }
    }
    Some(words)
}

/// `needle` occurs in `s` starting at position `i`.
pub open spec fn spec_match_at(s: Seq<char>, needle: Seq<char>, i: int) -> bool {
    &&& 0 <= i
    &&& i + needle.len() <= s.len()
    &&& s.subrange(i, i + needle.len()) == needle
}

/// `needle` occurs somewhere in `s`.
pub open spec fn spec_str_contains(s: Seq<char>, needle: Seq<char>) -> bool {
    exists|i: int| #[trigger] spec_match_at(s, needle, i)
}

/// Whether `needle` occurs in `s`, by characters.
fn str_contains(s: &str, needle: &str) -> (r: bool)
    ensures
        r == spec_str_contains(s@, needle@),
{
    let n = s.unicode_len();
    let m = needle.unicode_len();
    if m > n {
        proof {
            assert forall|i: int| !spec_match_at(s@, needle@, i) by {}
        }
        return false;
    }
    let mut i: usize = 0;
    while i <= n - m
        invariant
            n == s@.len(),
            m == needle@.len(),
            m <= n,
            i <= n - m + 1,
            forall|j: int| 0 <= j < i ==> !spec_match_at(s@, needle@, j),
        decreases n - m + 1 - i,
    {
        let mut k: usize = 0;
        let mut all_match = true;
        while k < m && all_match
            invariant
                n == s@.len(),
                m == needle@.len(),
                i + m <= n,
                k <= m,
                all_match == (forall|l: int| 0 <= l < k ==> s@[i + l] == needle@[l]),
            decreases m - k,
        {
            let sc = s.get_char(i + k);
            let nc = needle.get_char(k);
            if sc != nc {
                all_match = false;
            }
            k += 1;
        }
        if all_match {
            proof {
                assert(s@.subrange(i as int, i + needle@.len()) =~= needle@);
                assert(spec_match_at(s@, needle@, i as int));
            }
            return true;
        }
        proof {
            let witness: int = choose|l: int| 0 <= l < k && s@[i + l] != needle@[l];
            assert(s@.subrange(i as int, i + needle@.len())[witness] != needle@[witness]);
        }
        i += 1;
    }
    false
}

/// The pipeline stage a shader's file path declares, by which stage name
/// occurs in the path: `fragment` wins over `vertex`, then `geometry`,
/// `tess_ctrl`, `tess_eval` and `compute`; a path naming none of them
/// declares no stage.
pub open spec fn spec_shader_type_for_path(p: Seq<char>) -> Option<ShaderType> {
    if spec_str_contains(p, "fragment"@) {
        Some(ShaderType::Fragment)
    } else if spec_str_contains(p, "vertex"@) {
        Some(ShaderType::Vertex)
    } else if spec_str_contains(p, "geometry"@) {
        Some(ShaderType::Geometry)
    } else if spec_str_contains(p, "tess_ctrl"@) {
        Some(ShaderType::TesselationControl)
    } else if spec_str_contains(p, "tess_eval"@) {
        Some(ShaderType::TesselationEval)
    } else if spec_str_contains(p, "compute"@) {
        Some(ShaderType::Compute)
    } else {
        None
    }
}

/// Classify a shader by its file path.
pub fn shader_type_for_path(path: &str) -> (r: Option<ShaderType>)
    ensures
        r == spec_shader_type_for_path(path@),
{
    if str_contains(path, "fragment") {
        Some(ShaderType::Fragment)
    } else if str_contains(path, "vertex") {
        Some(ShaderType::Vertex)
    } else if str_contains(path, "geometry") {
        Some(ShaderType::Geometry)
    } else if str_contains(path, "tess_ctrl") {
        Some(ShaderType::TesselationControl)
    } else if str_contains(path, "tess_eval") {
        Some(ShaderType::TesselationEval)
    } else if str_contains(path, "compute") {
        Some(ShaderType::Compute)
    } else {
        None
    }
}

} // verus!
