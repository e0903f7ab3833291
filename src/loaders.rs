use vstd::prelude::*;

verus! {

/// A compiled shader: where it was loaded from and its SPIR-V bytes.
#[derive(Debug)]
pub struct Shader {
    pub path: String,
    pub spirv: Vec<u8>,
}

/// Loader of glTF meshes; decoding the file itself is left to the glTF
/// library by the application.
#[derive(Clone, Copy, Debug, Default)]
pub struct GltfLoader;

impl GltfLoader {
    /// File extensions this loader takes.
    pub fn extensions(&self) -> (r: Vec<&'static str>)
        ensures
            r@.len() == 2,
            r@[0]@ == "gltf"@,
            r@[1]@ == "glb"@,
    {
        let mut r: Vec<&'static str> = Vec::new();
        r.push("gltf");
        r.push("glb");
        proof {
            reveal_strlit("gltf");
            reveal_strlit("glb");
        }
        r
    }
}

} // verus!
