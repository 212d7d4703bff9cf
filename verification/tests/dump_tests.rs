use vis_dump::chunk::ShapeError;
use vis_dump::dump::{build_record_line, dump_schedule, dump_slice, header_line, DumpStats};
use vis_dump::encode::Sample;
use vis_dump::model::ObsContext;

/// Build the library's representation of one 32-bit sample.
fn sample(v: f32) -> Sample {
    Sample {
        decimal_text: format!("{}", v),
        abs_decimal_text: format!("{}", v.abs()),
        truncated: v as u64,
        abs_truncated: v.abs() as u64,
    }
}

fn two_antenna_context() -> ObsContext {
    ObsContext {
        num_antennas: 2,
        num_visibility_pols: 1,
        num_fine_channels_per_coarse: 1,
        antenna_names: vec![String::from("ant0"), String::from("ant1")],
        coarse_channels: vec![],
        timesteps: vec![0],
    }
}

#[test]
fn header_names_the_fourteen_columns() {
    assert_eq!(
        header_line().as_str(),
        "coarse_chan,timestep,baseline,ant1_name,ant2_name,fine_chan,xx_re,xx_im,xy_re,xy_im,yx_re,yx_im,yy_re,yy_im\n"
    );
}

#[test]
fn schedule_visits_coarse_major() {
    let schedule = dump_schedule(2, 3);
    assert_eq!(schedule, vec![(0, 0), (0, 1), (0, 2), (1, 0), (1, 1), (1, 2)]);
}

#[test]
fn schedule_of_empty_axes() {
    assert_eq!(dump_schedule(0, 5).len(), 0);
    assert_eq!(dump_schedule(5, 0).len(), 0);
}

#[test]
fn one_record_line() {
    let buffer = vec![sample(1.0), sample(-2.5)];
    let line = build_record_line(3, 1, 2, "a", "b", 0, &buffer, 0, 2, 0, false);
    assert_eq!(line.as_str(), "3,1,2,a,b,0,1,-2.5\n");
}

#[test]
fn one_slice_of_a_synthetic_observation() {
    // Two antennas (three baselines), one coarse channel, one timestep,
    // one fine channel, one polarisation product; buffer of six samples.
    let ctx = two_antenna_context();
    let buffer: Vec<Sample> = [1.0f32, 2.0, 3.0, 4.0, 5.0, 6.0]
        .iter()
        .map(|&v| sample(v))
        .collect();
    let mut stats = DumpStats::new();
    let lines = dump_slice(&ctx, 0, 0, &buffer, 0, false, &mut stats).unwrap();
    assert_eq!(lines.len(), 3);
    assert_eq!(lines[0].as_str(), "0,0,0,ant0,ant0,0,1,2\n");
    assert_eq!(lines[1].as_str(), "0,0,1,ant0,ant1,0,3,4\n");
    assert_eq!(lines[2].as_str(), "0,0,2,ant1,ant1,0,5,6\n");
    assert_eq!(stats.value_count, 6);
    // The raw values' running sum, accumulated as the surrounding
    // program does it while writing the lines.
    let sum: f64 = [1.0f32, 2.0, 3.0, 4.0, 5.0, 6.0].iter().map(|&v| v as f64).sum();
    assert_eq!(sum, 21.0);
}

#[test]
fn slice_lines_carry_slice_indices() {
    let ctx = two_antenna_context();
    let buffer: Vec<Sample> = [1.0f32, 2.0, 3.0, 4.0, 5.0, 6.0]
        .iter()
        .map(|&v| sample(v))
        .collect();
    let mut stats = DumpStats::new();
    let lines = dump_slice(&ctx, 7, 3, &buffer, 0, false, &mut stats).unwrap();
    assert_eq!(lines[0].as_str(), "7,3,0,ant0,ant0,0,1,2\n");
}

#[test]
fn slice_with_radix_policy() {
    // One antenna, one baseline, one fine channel, one polarisation
    // product; hexadecimal value columns.
    let ctx = ObsContext {
        num_antennas: 1,
        num_visibility_pols: 1,
        num_fine_channels_per_coarse: 1,
        antenna_names: vec![String::from("tile")],
        coarse_channels: vec![],
        timesteps: vec![0],
    };
    let buffer = vec![sample(255.0), sample(16.0)];
    let mut stats = DumpStats::new();
    let lines = dump_slice(&ctx, 0, 0, &buffer, 16, false, &mut stats).unwrap();
    assert_eq!(lines.len(), 1);
    assert_eq!(lines[0].as_str(), "0,0,0,tile,tile,0,ff,10\n");
    assert_eq!(stats.value_count, 2);
}

#[test]
fn slice_with_absolute_policy() {
    let ctx = ObsContext {
        num_antennas: 1,
        num_visibility_pols: 1,
        num_fine_channels_per_coarse: 1,
        antenna_names: vec![String::from("tile")],
        coarse_channels: vec![],
        timesteps: vec![0],
    };
    let buffer = vec![sample(-1.5), sample(2.5)];
    let mut stats = DumpStats::new();
    let lines = dump_slice(&ctx, 0, 0, &buffer, 0, true, &mut stats).unwrap();
    assert_eq!(lines[0].as_str(), "0,0,0,tile,tile,0,1.5,2.5\n");
}

#[test]
fn empty_slice_produces_no_lines() {
    let ctx = two_antenna_context();
    let buffer: Vec<Sample> = vec![];
    let mut stats = DumpStats::new();
    let lines = dump_slice(&ctx, 0, 0, &buffer, 0, false, &mut stats).unwrap();
    assert_eq!(lines.len(), 0);
    assert_eq!(stats.value_count, 0);
}

#[test]
fn every_line_is_complete() {
    // Each produced line carries exactly one newline, at its end.
    let ctx = two_antenna_context();
    let buffer: Vec<Sample> = [1.5f32, -2.0, 3.25, 4.0, -5.5, 6.0]
        .iter()
        .map(|&v| sample(v))
        .collect();
    let mut stats = DumpStats::new();
    let lines = dump_slice(&ctx, 0, 0, &buffer, 0, false, &mut stats).unwrap();
    for line in &lines {
        assert!(line.ends_with('\n'));
        assert_eq!(line.matches('\n').count(), 1);
    }
}

#[test]
fn misaligned_slice_fails_and_keeps_stats() {
    let ctx = two_antenna_context();
    let buffer = vec![sample(1.0), sample(2.0), sample(3.0)];
    let mut stats = DumpStats::new();
    let r = dump_slice(&ctx, 0, 0, &buffer, 0, false, &mut stats);
    assert!(matches!(r, Err(ShapeError::Misaligned)));
    assert_eq!(stats.value_count, 0);
}

#[test]
fn oversized_slice_fails_and_keeps_stats() {
    let ctx = two_antenna_context();
    let buffer: Vec<Sample> = (0..8).map(|v| sample(v as f32)).collect();
    let mut stats = DumpStats::new();
    let r = dump_slice(&ctx, 0, 0, &buffer, 0, false, &mut stats);
    assert!(matches!(r, Err(ShapeError::ExcessBaselines)));
    assert_eq!(stats.value_count, 0);
}

#[test]
fn stats_accumulate_over_slices() {
    let ctx = two_antenna_context();
    let buffer: Vec<Sample> = (0..6).map(|v| sample(v as f32)).collect();
    let mut stats = DumpStats::new();
    dump_slice(&ctx, 0, 0, &buffer, 0, false, &mut stats).unwrap();
    dump_slice(&ctx, 0, 1, &buffer, 0, false, &mut stats).unwrap();
    assert_eq!(stats.value_count, 12);
}
