use particle_shower::display::{ColourMode, ColourSource};
use particle_shower::fshader;
use particle_shower::mesh::{shower_indices, SHOWER_CORNERS};
use particle_shower::particle::Particle;
use particle_shower::pipeline::{
    movement_schedule, strip_length, PairAction, PairCollector, NUM_STRIPS,
};
use particle_shower::strip::{Strip, MAX_DRAWN};
use particle_shower::vshader;

#[test]
fn vertex_shader_source() {
    let source = vshader::get();
    assert!(source.starts_with("#version 140\n"));
    assert!(source.contains("uniform mat4 projection;"));
    assert!(source.contains("gl_Position = projection * view * world * vec4(position, 1.0);"));
    assert!(source.contains("sampleColour = colour;"));
}

#[test]
fn fragment_shader_source() {
    let source = fshader::get();
    assert!(source.starts_with("\n    #version 140\n"));
    assert!(source.contains("in vec3 sampleColour;"));
    assert!(source.contains("color = vec4(sampleColour, 1.0);"));
}

#[test]
fn fresh_particle_is_active_and_has_absorbed_nothing() {
    let mut p = Particle::new();
    assert!(p.is_active());
    assert!(p.get_collided_with().is_empty());
    assert_eq!(p.get_indices(), [0, 1, 2]);
}

#[test]
fn absorbing_takes_over_the_other_record() {
    let mut a = Particle::new();
    let mut b = Particle::new();
    let mut c = Particle::new();
    b.absorb(&mut c, 7);
    assert_eq!(b.get_collided_with(), &[7]);
    assert!(c.get_collided_with().is_empty());
    a.absorb(&mut b, 5);
    assert_eq!(a.get_collided_with(), &[7, 5]);
    assert!(b.get_collided_with().is_empty());
    assert!(a.is_active() && b.is_active() && c.is_active());
}

#[test]
fn collided_with_slice_writes_through() {
    let mut a = Particle::new();
    let mut b = Particle::new();
    a.absorb(&mut b, 3);
    a.get_collided_with()[0] = 4;
    assert_eq!(a.get_collided_with(), &[4]);
}

#[test]
fn strip_records_chain_of_absorptions() {
    let mut strip = Strip::new(4);
    assert_eq!(strip.len(), 4);
    strip.absorb(1, 3);
    strip.absorb(0, 2);
    strip.absorb(0, 1);
    assert_eq!(strip.respawn_targets(0), vec![2, 3, 1]);
    assert_eq!(strip.respawn_targets(1), Vec::<usize>::new());
    assert_eq!(strip.respawn_targets(2), Vec::<usize>::new());
    assert_eq!(strip.respawn_targets(3), Vec::<usize>::new());
    for i in 0..4 {
        assert!(strip.is_active(i));
    }
}

#[test]
fn respawn_targets_lie_after_the_particle() {
    let mut strip = Strip::new(10);
    strip.absorb(6, 9);
    strip.absorb(4, 6);
    strip.absorb(4, 5);
    strip.absorb(2, 4);
    let targets = strip.respawn_targets(2);
    assert_eq!(targets, vec![9, 6, 5, 4]);
    assert!(targets.iter().all(|&t| t > 2 && t < strip.len()));
}

#[test]
fn fresh_strip_has_empty_records() {
    let strip = Strip::new(3);
    for i in 0..3 {
        assert!(strip.respawn_targets(i).is_empty());
        assert!(strip.is_active(i));
    }
    assert_eq!(Strip::new(0).len(), 0);
}

#[test]
fn small_strip_is_drawn_whole() {
    let strip = Strip::new(3);
    assert_eq!(strip.draw_selection(), vec![0, 1, 2]);
    assert_eq!(Strip::new(0).draw_selection(), Vec::<usize>::new());
}

#[test]
fn large_strip_is_drawn_up_to_the_limit() {
    let strip = Strip::new(7083);
    let selected = strip.draw_selection();
    assert_eq!(MAX_DRAWN, 500);
    assert_eq!(selected.len(), 500);
    assert_eq!(selected, (0..500).collect::<Vec<usize>>());
    let exact = Strip::new(500);
    assert_eq!(exact.draw_selection().len(), 500);
}

#[test]
fn strips_share_the_particles_evenly() {
    assert_eq!(NUM_STRIPS, 12);
    assert_eq!(strip_length(85000), 7083);
    assert_eq!(strip_length(12), 1);
    assert_eq!(strip_length(11), 0);
    assert_eq!(strip_length(0), 0);
}

#[test]
fn movement_schedule_pairs_neighbouring_strips() {
    assert_eq!(
        movement_schedule(12),
        vec![(0, 1), (2, 3), (4, 5), (6, 7), (8, 9), (10, 11)]
    );
    assert_eq!(movement_schedule(5), vec![(0, 1), (2, 3)]);
    assert_eq!(movement_schedule(1), Vec::<(usize, usize)>::new());
    assert_eq!(movement_schedule(0), Vec::<(usize, usize)>::new());
}

#[test]
fn collector_pairs_indices_and_flags_the_last() {
    let mut stage = PairCollector::new(4);
    assert_eq!(stage.receive(0), PairAction::Wait);
    assert_eq!(
        stage.receive(1),
        PairAction::Process { first: 0, second: 1, last: false }
    );
    assert_eq!(stage.receive(2), PairAction::Wait);
    assert_eq!(
        stage.receive(3),
        PairAction::Process { first: 2, second: 3, last: true }
    );
    assert_eq!(stage.receive(0), PairAction::Wait);
}

fn handled(stage: &mut PairCollector, indices: &[usize]) -> Vec<(usize, usize, bool)> {
    let mut out = Vec::new();
    for &i in indices {
        if let PairAction::Process { first, second, last } = stage.receive(i) {
            out.push((first, second, last));
        }
    }
    out
}

#[test]
fn a_frame_runs_through_the_pipeline() {
    let sent: Vec<usize> = movement_schedule(NUM_STRIPS)
        .into_iter()
        .flat_map(|(a, b)| vec![a, b])
        .collect();
    assert_eq!(sent, (0..12).collect::<Vec<usize>>());
    let mut collision = PairCollector::new(NUM_STRIPS);
    let collided = handled(&mut collision, &sent);
    let forwarded: Vec<usize> = collided.iter().flat_map(|&(a, b, _)| vec![a, b]).collect();
    assert_eq!(forwarded, sent);
    let mut temperature = PairCollector::new(NUM_STRIPS);
    let cooled = handled(&mut temperature, &forwarded);
    assert_eq!(cooled.len(), 6);
    assert_eq!(cooled.iter().filter(|&&(_, _, last)| last).count(), 1);
    assert_eq!(cooled[5], (10, 11, true));
    // the next frame starts afresh
    let again = handled(&mut temperature, &forwarded);
    assert_eq!(again, cooled);
}

#[test]
fn odd_strip_count_never_closes_a_frame() {
    let sent: Vec<usize> = movement_schedule(13)
        .into_iter()
        .flat_map(|(a, b)| vec![a, b])
        .collect();
    assert_eq!(sent, (0..12).collect::<Vec<usize>>());
    let mut temperature = PairCollector::new(13);
    let cooled = handled(&mut temperature, &sent);
    assert_eq!(cooled.len(), 6);
    assert!(cooled.iter().all(|&(_, _, last)| !last));
}

#[test]
fn colour_mode_toggles() {
    let mut mode = ColourMode::new();
    assert_eq!(mode.colour_source(), ColourSource::Temperature);
    mode.invert_colours();
    assert_eq!(mode.colour_source(), ColourSource::Mass);
    mode.invert_colours();
    assert_eq!(mode.colour_source(), ColourSource::Temperature);
}

#[test]
fn shower_outline_names_the_box_corners() {
    let indices = shower_indices();
    assert_eq!(
        indices,
        [
            0, 1, 2, 2, 3, 0, 4, 0, 3, 3, 7, 4, 5, 4, 7, 7, 6, 5, 1, 5, 6, 6, 2, 1, 4, 5, 1, 1,
            0, 4, 3, 2, 6, 6, 7, 3
        ]
    );
    assert!(indices.iter().all(|&i| i < SHOWER_CORNERS));
}
