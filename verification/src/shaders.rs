//! Shader asset paths: the mapping from a shader source file to its
//! compiled SPIR-V output location, and the recognizer for shader source
//! files.  Directory walking and compiler invocation live with the host;
//! this module holds the path logic.

use vstd::prelude::*;

verus! {

/// The final path component: everything after the last `/`.
pub open spec fn spec_file_name(s: Seq<char>) -> Seq<char>
    decreases s.len(),
{
    if s.len() == 0 {
        s
    } else if s[s.len() - 1] == '/' {
        Seq::<char>::empty()
    } else {
        spec_file_name(s.drop_last()).push(s[s.len() - 1])
    }
}

/// `s` ends with `suf`.
pub open spec fn spec_has_suffix(s: Seq<char>, suf: Seq<char>) -> bool {
    s.len() >= suf.len() && s.subrange(s.len() - suf.len(), s.len() as int) == suf
}

/// Where the compiled SPIR-V for a shader source file is written: the
/// source's file name, under the `spv` directory, with `.spv` appended.
pub fn get_spirv_output_path(shader_path: &str) -> (r: String)
    requires
        spec_file_name(shader_path@).len() > 0,
    ensures
        r@ == "spv/"@ + spec_file_name(shader_path@) + ".spv"@,
{
    let n = shader_path.unicode_len();
    let mut start: usize = 0;
    let mut i: usize = 0;
    while i < n
        invariant
            0 <= start <= i <= n,
            n == shader_path@.len(),
            spec_file_name(shader_path@.subrange(0, i as int)) == shader_path@.subrange(
                start as int,
                i as int,
            ),
        decreases n - i,
    {
        let c = shader_path.get_char(i);
        proof {
            assert(shader_path@.subrange(0, i + 1 as int).drop_last() =~= shader_path@.subrange(
                0,
                i as int,
            ));
            assert(shader_path@.subrange(0, i + 1 as int).last() == shader_path@[i as int]);
        }
        if c == '/' {
            start = i + 1;
            proof {
                assert(spec_file_name(shader_path@.subrange(0, i + 1 as int))
                    =~= shader_path@.subrange(start as int, i + 1 as int));
            }
        } else {
            proof {
                assert(spec_file_name(shader_path@.subrange(0, i + 1 as int))
                    =~= shader_path@.subrange(start as int, i + 1 as int));
            }
        }
        i = i + 1;
    }
    proof {
        assert(shader_path@.subrange(0, n as int) =~= shader_path@);
    }
    let name = shader_path.substring_char(start, n);
    let mut out = String::from_str("spv/");
    out.append(name);
    out.append(".spv");
    out
}

/// Whether a file is a shader source the build step compiles: a
/// fragment, vertex, compute or geometry shader by extension.
pub fn is_shader_source(path: &str) -> (r: bool)
    ensures
        r == (spec_has_suffix(path@, ".frag"@) || spec_has_suffix(path@, ".vert"@)
            || spec_has_suffix(path@, ".comp"@) || spec_has_suffix(path@, ".geom"@)),
{
    has_suffix(path, ".frag") || has_suffix(path, ".vert") || has_suffix(path, ".comp")
        || has_suffix(path, ".geom")
}

fn has_suffix(s: &str, suf: &str) -> (r: bool)
    ensures
        r == spec_has_suffix(s@, suf@),
{
    let n = s.unicode_len();
    let m = suf.unicode_len();
    if m > n {
        false
    } else {
        let tail = s.substring_char(n - m, n);
        let a = String::from_str(tail);
        let b = String::from_str(suf);
        a == b
    }
}

} // verus!
