use vstd::prelude::*;

verus! {

/// The fragment shader: paints each fragment in the colour that the vertex
/// shader handed on, fully opaque.
pub fn get() -> (source: &'static str)
    ensures
        source@ == r#"
    #version 140
    in vec3 sampleColour;
    out vec4 color;

    void main() {
        color = vec4(sampleColour, 1.0);
    }
"#@,
{
    r#"
    #version 140
    in vec3 sampleColour;
    out vec4 color;

    void main() {
        color = vec4(sampleColour, 1.0);
    }
"#
}

} // verus!
