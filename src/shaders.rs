use vstd::prelude::*;

verus! {

/// The vertex stage of the textured-model program, NUL-terminated.
pub const VS_SHADER_SRC: &'static str = "
#version 450

uniform mat4 u_projMatrix;

layout(location=0) in vec3 vert_pos;
layout(location=1) in vec3 vert_normal;

out vec2 tex_coords;

void main()
{
    tex_coords = vec2(vert_normal.x, 0.0);
    gl_Position = u_projMatrix * vec4(vert_pos, 1.0);
}\0";

/// The fragment stage of the textured-model program, NUL-terminated.
pub const FS_SHADER_SRC: &'static str = "
#version 450
layout(binding=0) uniform sampler2D tex_sampler;

in vec2 tex_coords;

out vec4 out_col;

void main()
{
    vec4 color = texture(tex_sampler, tex_coords);
    out_col = vec4(color.rgb, 1.0);
}\0";

/// A programmable pipeline stage.
#[derive(Clone, Copy, Debug, PartialEq, Eq, Structural)]
pub enum ShaderStage {
    Vertex,
    Fragment,
}

/// One shader to compile: its stage and its NUL-terminated source.
#[derive(Clone, Copy, Debug)]
pub struct ShaderSource {
    pub stage: ShaderStage,
    pub source: &'static str,
}

/// The shaders that make up the textured-model program, in the order they
/// are compiled and attached before linking: vertex, then fragment.
pub fn create_shader_program() -> (r: Vec<ShaderSource>)
    ensures
        r@.len() == 2,
        r@[0].stage == ShaderStage::Vertex,
        r@[0].source == VS_SHADER_SRC,
        r@[1].stage == ShaderStage::Fragment,
        r@[1].source == FS_SHADER_SRC,
{
    let mut r: Vec<ShaderSource> = Vec::new();
    r.push(ShaderSource { stage: ShaderStage::Vertex, source: VS_SHADER_SRC });
    r.push(ShaderSource { stage: ShaderStage::Fragment, source: FS_SHADER_SRC });
    r
}

/// Whether `bytes` is a C string as a shader compiler takes it: a single NUL,
/// at the very end.
pub open spec fn nul_terminated(bytes: Seq<u8>) -> bool {
    &&& bytes.len() > 0
    &&& bytes.last() == 0
    &&& forall|i: int| 0 <= i < bytes.len() - 1 ==> bytes[i] != 0
}

/// Checks that a shader source can be handed to the compiler as a C string.
pub fn is_nul_terminated(bytes: &[u8]) -> (r: bool)
    ensures
        r == nul_terminated(bytes@),
{
    let n = bytes.len();
    if n == 0 {
        return false;
    }
    let mut i: usize = 0;
    while i < n - 1
        invariant
            n == bytes@.len(),
            n > 0,
            i <= n - 1,
            forall|k: int| 0 <= k < i ==> bytes@[k] != 0,
        decreases n - 1 - i,
    {
        if bytes[i] == 0 {
            return false;
        }
        i = i + 1;
    }
    bytes[n - 1] == 0
}

/// Where uniform `name` is bound among `entries`: the last entry of that name
/// wins, as a later registration replaces an earlier one.
pub open spec fn location_of(entries: Seq<(String, i32)>, name: Seq<char>) -> Option<i32>
    decreases entries.len(),
{
    if entries.len() == 0 {
        None
    } else if entries.last().0@ == name {
        Some(entries.last().1)
    } else {
        location_of(entries.drop_last(), name)
    }
}

/// A linked shader program and the locations of its active uniforms.
pub struct Program {
    program_name: u32,
    uniforms: Vec<(String, i32)>,
}

impl Program {
    /// The program's GPU name.
    pub closed spec fn name(self) -> u32 {
        self.program_name
    }

    /// Where uniform `uniform` is bound, if the program has it.
    pub closed spec fn location(self, uniform: Seq<char>) -> Option<i32> {
        location_of(self.uniforms@, uniform)
    }

    /// A program with the given GPU name and no uniform registered yet.
    pub fn with_name(program_name: u32) -> (r: Self)
        ensures
            r.name() == program_name,
            forall|u: Seq<char>| r.location(u) is None,
    {
        Program { program_name, uniforms: Vec::new() }
    }

    /// The program's GPU name, for binding it.
    pub fn program_name(&self) -> (r: u32)
        ensures
            r == self.name(),
    {
        self.program_name
    }

    /// Records that uniform `uniform` is bound at `location`, replacing any
    /// earlier record of that name.
    pub fn add_uniform(&mut self, uniform: String, location: i32)
        ensures
            final(self).name() == old(self).name(),
            final(self).location(uniform@) == Some(location),
            forall|u: Seq<char>| u != uniform@ ==> final(self).location(u) == old(self).location(u),
    {
        self.uniforms.push((uniform, location));
        proof {
            assert(self.uniforms@.drop_last() =~= old(self).uniforms@);
        }
    }

    /// The location of uniform `uniform`, or `None` where the program has no
    /// such active uniform.
    pub fn uniform_location(&self, uniform: &String) -> (r: Option<i32>)
        ensures
            r == self.location(uniform@),
    {
        let mut i: usize = self.uniforms.len();
        proof {
            assert(self.uniforms@.take(i as int) =~= self.uniforms@);
        }
        while i > 0
            invariant
                i <= self.uniforms@.len(),
                location_of(self.uniforms@, uniform@) == location_of(self.uniforms@.take(i as int), uniform@),
            decreases i,
        {
            proof {
                assert(self.uniforms@.take(i as int).drop_last() =~= self.uniforms@.take(i - 1));
            }
            if self.uniforms[i - 1].0 == *uniform {
                return Some(self.uniforms[i - 1].1);
            }
            i = i - 1;
        }
        None
    }
}

} // verus!
