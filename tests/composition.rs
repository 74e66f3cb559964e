use maku::config::{load_shader_filter, resource_requests};
use maku::{
    fit_to_matrix, Composition, Filter, IoComposition, IoFilter, IoImageFit, MakuError, Pass,
    Preset, Request, Resolved, ShaderSource, Source, Transform, UniformValue, MICRO,
};

fn image(path: &str, fit: IoImageFit) -> IoFilter {
    IoFilter::Image { path: path.to_string(), fit }
}

fn project() -> IoComposition {
    let child = IoComposition {
        filters: vec![IoFilter::BlackWhite, image("b.png", IoImageFit::Cover)],
        width: 50,
        height: 50,
        fit: IoImageFit::Contain,
    };
    IoComposition {
        filters: vec![
            image("a.png", IoImageFit::Fill),
            IoFilter::Composition(child),
            IoFilter::GaussianBlur { radius: 2 * MICRO as i64 },
        ],
        width: 100,
        height: 100,
        fit: IoImageFit::Fill,
    }
}

fn project_resources() -> Vec<Resolved> {
    vec![
        Resolved::Image { texture: 0, width: 200, height: 100 },
        Resolved::Shader { program: 0 },
        Resolved::Image { texture: 1, width: 10, height: 20 },
        Resolved::Shader { program: 1 },
    ]
}

fn empty(width: u32, height: u32) -> IoComposition {
    IoComposition { filters: vec![], width, height, fit: IoImageFit::Fill }
}

fn draw(source: Source, matrix: Transform, into: usize, size: u32) -> Pass {
    Pass::Draw { source, matrix, into, width: size, height: size }
}

fn blend(bottom: usize, top: usize, into: usize, size: u32) -> Pass {
    Pass::Blend { bottom, top, into, width: size, height: size }
}

fn clear(into: usize, width: u32, height: u32) -> Pass {
    Pass::Clear { into, width, height }
}

fn shader(program: usize, input: usize, into: usize, size: u32) -> Pass {
    Pass::Shader { program, input, into, width: size, height: size }
}

#[test]
fn requests_come_in_declaration_order() {
    let r = resource_requests(&project());
    assert_eq!(r.len(), 4);
    assert!(matches!(&r[0], Request::Image { path } if path == "a.png"));
    assert!(matches!(&r[1], Request::Shader(s) if matches!(s.source, ShaderSource::Preset(Preset::BlackWhite)) && s.uniforms.is_empty()));
    assert!(matches!(&r[2], Request::Image { path } if path == "b.png"));
    match &r[3] {
        Request::Shader(s) => {
            assert!(matches!(s.source, ShaderSource::Preset(Preset::GaussianBlur)));
            assert_eq!(s.uniforms, vec![("u_radius".to_string(), UniformValue::Float(2 * MICRO as i64))]);
        }
        other => panic!("expected a shader request, got {:?}", other),
    }
}

#[test]
fn drop_shadow_takes_its_uniforms() {
    let f = IoFilter::DropShadow { radius: 5, offset: (6, -7), color: (1, 2, 3, 4) };
    let r = load_shader_filter(&f);
    assert!(matches!(r.source, ShaderSource::Preset(Preset::DropShadow)));
    assert_eq!(
        r.uniforms,
        vec![
            ("u_radius".to_string(), UniformValue::Float(5)),
            ("u_offset".to_string(), UniformValue::Vector2(6, -7)),
            ("u_color".to_string(), UniformValue::Vector4(1, 2, 3, 4)),
        ]
    );
}

#[test]
fn custom_shader_names_its_files() {
    let f = IoFilter::Shader { frag: "x.frag".to_string(), vert: "x.vert".to_string() };
    let r = load_shader_filter(&f);
    match r.source {
        ShaderSource::Files { vert, frag } => {
            assert_eq!(vert, "x.vert");
            assert_eq!(frag, "x.frag");
        }
        other => panic!("expected files, got {:?}", other),
    }
    assert!(r.uniforms.is_empty());
}

#[test]
fn load_builds_the_tree_children_first() {
    let m = Composition::load(&project(), &project_resources()).unwrap();
    assert_eq!((m.width, m.height), (100, 100));
    assert_eq!((m.input, m.intermediate, m.output), (3, 4, 5));
    assert_eq!(m.filters.len(), 3);
    match &m.filters[0] {
        Filter::Image { texture, matrix } => {
            assert_eq!(*texture, 0);
            assert_eq!(*matrix, fit_to_matrix(&IoImageFit::Fill, 200, 100, 100, 100));
        }
        other => panic!("expected an image, got {:?}", other),
    }
    match &m.filters[1] {
        Filter::Composition { composition, matrix } => {
            assert_eq!(*matrix, fit_to_matrix(&IoImageFit::Contain, 50, 50, 100, 100));
            assert_eq!((composition.input, composition.intermediate, composition.output), (0, 1, 2));
            assert_eq!((composition.width, composition.height), (50, 50));
            assert!(matches!(&composition.filters[0], Filter::Shader { program: 0, uniforms } if uniforms.is_empty()));
            match &composition.filters[1] {
                Filter::Image { texture, matrix } => {
                    assert_eq!(*texture, 1);
                    assert_eq!(*matrix, fit_to_matrix(&IoImageFit::Cover, 10, 20, 50, 50));
                }
                other => panic!("expected an image, got {:?}", other),
            }
        }
        other => panic!("expected a composition, got {:?}", other),
    }
    assert!(matches!(&m.filters[2], Filter::Shader { program: 1, uniforms } if uniforms == &vec![("u_radius".to_string(), UniformValue::Float(2 * MICRO as i64))]));
}

#[test]
fn load_rejects_an_empty_canvas() {
    let r = Composition::load(&empty(0, 10), &vec![]);
    assert!(matches!(r, Err(MakuError::InvalidComposition)));
    let mut p = project();
    if let IoFilter::Composition(child) = &mut p.filters[1] {
        child.height = 0;
    }
    let r = Composition::load(&p, &project_resources());
    assert!(matches!(r, Err(MakuError::InvalidComposition)));
}

#[test]
fn load_rejects_an_empty_image() {
    let mut res = project_resources();
    res[2] = Resolved::Image { texture: 1, width: 10, height: 0 };
    assert!(matches!(Composition::load(&project(), &res), Err(MakuError::InvalidComposition)));
}

#[test]
fn load_rejects_resources_that_do_not_answer_the_requests() {
    let mut swapped = project_resources();
    swapped.swap(0, 1);
    assert!(matches!(Composition::load(&project(), &swapped), Err(MakuError::InvalidComposition)));
    let mut short = project_resources();
    short.pop();
    assert!(matches!(Composition::load(&project(), &short), Err(MakuError::InvalidComposition)));
    let mut long = project_resources();
    long.push(Resolved::Shader { program: 9 });
    assert!(matches!(Composition::load(&project(), &long), Err(MakuError::InvalidComposition)));
}

#[test]
fn empty_composition_only_presents_its_output() {
    let m = Composition::load(&empty(4, 3), &vec![]).unwrap();
    assert_eq!(m.filter_passes(), vec![clear(m.input, 4, 3), clear(m.output, 4, 3)]);
    assert_eq!(
        m.render(),
        vec![clear(m.input, 4, 3), clear(m.output, 4, 3), Pass::Present { buffer: m.output, width: 4, height: 3 }]
    );
}

#[test]
fn render_plans_every_filter_in_order() {
    let m = Composition::load(&project(), &project_resources()).unwrap();
    let id = Transform::identity();
    let fill = fit_to_matrix(&IoImageFit::Fill, 200, 100, 100, 100);
    let cover = fit_to_matrix(&IoImageFit::Cover, 10, 20, 50, 50);
    let contain = fit_to_matrix(&IoImageFit::Contain, 50, 50, 100, 100);
    let expected = vec![
        clear(3, 100, 100),
        clear(5, 100, 100),
        draw(Source::Image(0), fill, 4, 100),
        blend(3, 4, 5, 100),
        draw(Source::Buffer(5), id, 3, 100),
        clear(0, 50, 50),
        clear(2, 50, 50),
        shader(0, 0, 2, 50),
        draw(Source::Buffer(2), id, 0, 50),
        draw(Source::Image(1), cover, 1, 50),
        blend(0, 1, 2, 50),
        draw(Source::Buffer(2), id, 0, 50),
        draw(Source::Buffer(2), contain, 4, 100),
        blend(3, 4, 5, 100),
        draw(Source::Buffer(5), id, 3, 100),
        shader(1, 3, 5, 100),
        draw(Source::Buffer(5), id, 3, 100),
        Pass::Present { buffer: 5, width: 100, height: 100 },
    ];
    assert_eq!(m.render(), expected);
}

#[test]
fn swapping_two_shader_filters_changes_the_passes() {
    let first = IoComposition {
        filters: vec![IoFilter::BlackWhite, IoFilter::GaussianBlur { radius: 1 }],
        width: 8,
        height: 8,
        fit: IoImageFit::Fill,
    };
    let second = IoComposition {
        filters: vec![IoFilter::GaussianBlur { radius: 1 }, IoFilter::BlackWhite],
        width: 8,
        height: 8,
        fit: IoImageFit::Fill,
    };
    // Program 0 inverts, program 1 blurs, whichever position they take.
    let a = Composition::load(&first, &vec![Resolved::Shader { program: 0 }, Resolved::Shader { program: 1 }]).unwrap();
    let b = Composition::load(&second, &vec![Resolved::Shader { program: 1 }, Resolved::Shader { program: 0 }]).unwrap();
    assert_ne!(a.render(), b.render());
    assert_eq!(a.render()[2], shader(0, 0, 2, 8));
    assert_eq!(b.render()[2], shader(1, 0, 2, 8));
}

#[test]
fn nested_image_is_drawn_twice_through_the_child() {
    let child = IoComposition {
        filters: vec![image("a.png", IoImageFit::Fill)],
        width: 20,
        height: 10,
        fit: IoImageFit::Fill,
    };
    let parent = IoComposition {
        filters: vec![IoFilter::Composition(child)],
        width: 40,
        height: 40,
        fit: IoImageFit::Fill,
    };
    let m = Composition::load(&parent, &vec![Resolved::Image { texture: 7, width: 5, height: 5 }]).unwrap();
    let passes = m.filter_passes();
    assert_eq!(passes.len(), 10);
    assert_eq!(passes[2], clear(0, 20, 10));
    assert_eq!(passes[3], clear(2, 20, 10));
    assert_eq!(
        passes[4],
        Pass::Draw {
            source: Source::Image(7),
            matrix: fit_to_matrix(&IoImageFit::Fill, 5, 5, 20, 10),
            into: 1,
            width: 20,
            height: 10
        }
    );
    assert_eq!(
        passes[7],
        draw(Source::Buffer(2), fit_to_matrix(&IoImageFit::Fill, 20, 10, 40, 40), 4, 40)
    );
}

#[test]
fn loaded_tree_numbers_every_buffer_once() {
    let m = Composition::load(&project(), &project_resources()).unwrap();
    let mut slots = vec![];
    for f in &m.filters {
        if let Filter::Composition { composition, .. } = f {
            slots.extend([composition.input, composition.intermediate, composition.output]);
        }
    }
    slots.extend([m.input, m.intermediate, m.output]);
    assert_eq!(slots, vec![0, 1, 2, 3, 4, 5]);
}

#[test]
fn buffer_sizes_are_listed_by_slot() {
    let m = Composition::load(&project(), &project_resources()).unwrap();
    assert_eq!(m.buffer_sizes(), vec![(50, 50), (50, 50), (50, 50), (100, 100), (100, 100), (100, 100)]);
    let single = Composition::load(&empty(7, 9), &vec![]).unwrap();
    assert_eq!(single.buffer_sizes(), vec![(7, 9), (7, 9), (7, 9)]);
}

#[test]
fn passes_write_whole_buffers_they_do_not_read() {
    let m = Composition::load(&project(), &project_resources()).unwrap();
    let sizes = m.buffer_sizes();
    for pass in m.render() {
        let (into, width, height, reads) = match pass {
            Pass::Draw { source, into, width, height, .. } => {
                let reads = match source {
                    Source::Buffer(b) => vec![b],
                    Source::Image(_) => vec![],
                };
                (into, width, height, reads)
            }
            Pass::Blend { bottom, top, into, width, height } => (into, width, height, vec![bottom, top]),
            Pass::Shader { input, into, width, height, .. } => (into, width, height, vec![input]),
            Pass::Clear { into, width, height } => (into, width, height, vec![]),
            Pass::Present { .. } => continue,
        };
        assert_eq!(sizes[into], (width, height));
        assert!(!reads.contains(&into));
    }
}

#[test]
fn every_read_buffer_was_written_earlier_in_the_render() {
    let m = Composition::load(&project(), &project_resources()).unwrap();
    let passes = m.render();
    let mut written: Vec<usize> = vec![];
    for pass in passes {
        let reads = match pass {
            Pass::Draw { source: Source::Buffer(b), .. } => vec![b],
            Pass::Draw { .. } | Pass::Clear { .. } => vec![],
            Pass::Blend { bottom, top, .. } => vec![bottom, top],
            Pass::Shader { input, .. } => vec![input],
            Pass::Present { buffer, .. } => vec![buffer],
        };
        for r in reads {
            assert!(written.contains(&r), "buffer {} read before it is written", r);
        }
        match pass {
            Pass::Draw { into, .. } | Pass::Blend { into, .. } | Pass::Shader { into, .. } | Pass::Clear { into, .. } => {
                written.push(into)
            }
            Pass::Present { .. } => {}
        }
    }
}
