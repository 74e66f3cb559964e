use maku::uniform::{shader_bindings, shader_queries};
use maku::{Binding, UniformValue};

#[test]
fn queries_follow_the_binding_order() {
    let uniforms = vec![
        ("u_radius".to_string(), UniformValue::Float(3)),
        ("u_color".to_string(), UniformValue::Vector4(1, 2, 3, 4)),
    ];
    let q = shader_queries(&uniforms);
    let got: Vec<(bool, &str)> = q.iter().map(|q| (q.attribute, q.name.as_str())).collect();
    assert_eq!(
        got,
        vec![
            (false, "u_resolution"),
            (false, "u_radius"),
            (false, "u_color"),
            (true, "a_uv"),
            (true, "a_position"),
            (false, "u_texture"),
        ]
    );
}

#[test]
fn undeclared_names_are_left_unbound() {
    let b = shader_bindings(2, &vec![true, false, true, false, true, true]);
    assert_eq!(b, vec![Binding::Resolution, Binding::Uniform(1), Binding::Position, Binding::Texture]);
}

#[test]
fn nothing_declared_binds_nothing() {
    assert_eq!(shader_bindings(0, &vec![false; 4]), vec![]);
    assert_eq!(
        shader_bindings(0, &vec![true; 4]),
        vec![Binding::Resolution, Binding::Uv, Binding::Position, Binding::Texture]
    );
}
