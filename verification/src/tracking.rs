//! From calibration readings and samples to the pose of the implant.
//!
//! The mean of the calibration readings gives the baseline plane of the
//! sensors. Each sample gives another plane of the sensors; the motion from
//! the baseline onto it is the motion of the rig. Where that motion is a
//! translation, it is applied to the implant plane and the motion of the
//! implant is measured in turn, exactly. Where it is a rotation, its exact
//! description is handed out for numerical evaluation.

use vstd::prelude::*;
use crate::error::Error;
use crate::isometry::{
    applied, isometry_between, lemma_applied_translation_is_measured,
    lemma_isometry_onto_raised_reading, Isometry,
};
use crate::measurement::{average, mean_of, Measurement};
use crate::plane::{in_range, refusal, shifted, with_heights, Plane};
use crate::vector::{Vec3, Vector3};

verus! {

/// The two reference planes of a rig.
#[derive(Clone, Copy, Debug, PartialEq, Eq)]
pub struct Config {
    /// The plane of the three sensors, at height zero.
    pub screws: Plane,
    /// The plane of the implant.
    pub implant: Plane,
}

/// What one sample says about the implant.
#[derive(Clone, Copy, Debug, PartialEq, Eq, Structural)]
pub enum Pose {
    /// The implant has moved by this translation, without turning.
    Translated(Vector3),
    /// The plane of the sensors has turned, by this rotation. What that does
    /// to the implant is left to numerical evaluation.
    Turned(Isometry),
}

impl Pose {
    /// The pose that a motion stands for.
    fn of(motion: Isometry) -> (r: Pose)
        ensures
            r == match motion {
                Isometry::Translation(t) => Pose::Translated(t),
                Isometry::Rotation { .. } => Pose::Turned(motion),
            },
    {
        match motion {
            Isometry::Translation(t) => Pose::Translated(t),
            Isometry::Rotation { .. } => Pose::Turned(motion),
        }
    }
}

/// The pose that one sample gives, or the reason why the sample is refused.
pub open spec fn pose_of(
    screws: Seq<Vec3>,
    implant: Seq<Vec3>,
    baseline: Seq<Vec3>,
    sample: Measurement,
) -> Result<Pose, Error> {
    let frame = with_heights(screws, sample);
    match refusal(frame) {
        Some(e) => Err(e),
        None => match isometry_between(baseline, frame) {
            Err(e) => Err(e),
            Ok(Isometry::Translation(t)) => match applied(implant, Isometry::Translation(t)) {
                Ok(_) => Ok(Pose::Translated(t)),
                Err(e) => Err(e),
            },
            Ok(rotation) => Ok(Pose::Turned(rotation)),
        },
    }
}

/// The poses that the samples give, one per sample and in their order, or
/// the reason why the first sample that is refused is refused.
pub open spec fn poses_of(
    screws: Seq<Vec3>,
    implant: Seq<Vec3>,
    baseline: Seq<Vec3>,
    samples: Seq<Measurement>,
) -> Result<Seq<Pose>, Error>
    decreases samples.len(),
{
    if samples.len() == 0 {
        Ok(Seq::empty())
    } else {
        match poses_of(screws, implant, baseline, samples.drop_last()) {
            Err(e) => Err(e),
            Ok(poses) => match pose_of(screws, implant, baseline, samples.last()) {
                Err(e) => Err(e),
                Ok(pose) => Ok(poses.push(pose)),
            },
        }
    }
}

/// What a whole run gives: the baseline is the plane of the sensors at the
/// mean of the calibration readings, and each sample is held against it.
pub open spec fn run_outcome(
    screws: Seq<Vec3>,
    implant: Seq<Vec3>,
    calibration: Seq<Measurement>,
    samples: Seq<Measurement>,
) -> Result<Seq<Pose>, Error> {
    if calibration.len() == 0 {
        Err(Error::EmptyCalibration)
    } else {
        let baseline = with_heights(screws, mean_of(calibration));
        match refusal(baseline) {
            Some(e) => Err(e),
            None => poses_of(screws, implant, baseline, samples),
        }
    }
}

/// A sample that raises all three heights of the baseline by one amount
/// `delta` moves the implant by `delta` along Z, without turning it.
pub proof fn lemma_level_sample_moves_implant(
    screws: Seq<Vec3>,
    implant: Seq<Vec3>,
    rest: Measurement,
    sample: Measurement,
    delta: int,
)
    requires
        refusal(implant) is None,
        refusal(with_heights(screws, rest)) is None,
        refusal(with_heights(screws, sample)) is None,
        sample.0 == rest.0 + delta,
        sample.1 == rest.1 + delta,
        sample.2 == rest.2 + delta,
        in_range(shifted(implant, Vec3 { x: 0, y: 0, z: delta })),
    ensures
        pose_of(screws, implant, with_heights(screws, rest), sample) == Ok::<Pose, Error>(
            Pose::Translated(Vec3 { x: 0, y: 0, z: delta }.to_vector()),
        ),
{
    lemma_isometry_onto_raised_reading(screws, rest, sample, delta);
}

/// Once a sample is refused, the run is refused for that reason, whatever
/// samples follow.
pub proof fn lemma_refusal_persists(
    screws: Seq<Vec3>,
    implant: Seq<Vec3>,
    baseline: Seq<Vec3>,
    samples: Seq<Measurement>,
    n: int,
)
    requires
        0 <= n <= samples.len(),
        poses_of(screws, implant, baseline, samples.take(n)) is Err,
    ensures
        poses_of(screws, implant, baseline, samples) == poses_of(
            screws,
            implant,
            baseline,
            samples.take(n),
        ),
    decreases samples.len() - n,
{
    if n == samples.len() {
        assert(samples.take(n) == samples);
    } else {
        assert(samples.take(n + 1).drop_last() == samples.take(n));
        lemma_refusal_persists(screws, implant, baseline, samples, n + 1);
    }
}

/// A run that is not refused gives exactly one pose per sample, in the
/// order of the samples: the pose at an index is the pose of the sample at
/// that index.
pub proof fn lemma_one_pose_per_sample(
    screws: Seq<Vec3>,
    implant: Seq<Vec3>,
    baseline: Seq<Vec3>,
    samples: Seq<Measurement>,
)
    requires
        poses_of(screws, implant, baseline, samples) is Ok,
    ensures
        poses_of(screws, implant, baseline, samples) matches Ok(poses) && poses.len()
            == samples.len() && forall|i: int|
            0 <= i < samples.len() ==> pose_of(screws, implant, baseline, #[trigger] samples[i])
                == Ok::<Pose, Error>(poses[i]),
    decreases samples.len(),
{
    if samples.len() > 0 {
        let front = samples.drop_last();
        lemma_one_pose_per_sample(screws, implant, baseline, front);
        let poses = poses_of(screws, implant, baseline, samples)->Ok_0;
        let before = poses_of(screws, implant, baseline, front)->Ok_0;
        assert forall|i: int| 0 <= i < samples.len() implies pose_of(
            screws,
            implant,
            baseline,
            #[trigger] samples[i],
        ) == Ok::<Pose, Error>(poses[i]) by {
            if i < front.len() {
                assert(samples[i] == front[i]);
                assert(poses[i] == before[i]);
            }
        }
    }
}

impl Config {
    /// The pose of the implant that one sample gives, `baseline` being the
    /// plane of the sensors at rest.
    pub fn locate(&self, baseline: &Plane, sample: &Measurement) -> (r: Result<Pose, Error>)
        ensures
            r == pose_of(self.screws@, self.implant@, baseline@, *sample),
    {
        let frame = self.screws.new_reading(sample)?;
        let motion = baseline.isometry_from(&frame)?;
        match motion {
            Isometry::Translation(t) => {
                proof {
                    use_type_invariant(&self.implant);
                    if applied(self.implant@, motion) is Ok {
                        lemma_applied_translation_is_measured(self.implant@, t);
                    }
                }
                let moved = self.implant.apply_isometry(&motion)?;
                let measured = self.implant.isometry_from(&moved)?;
                Ok(Pose::of(measured))
            },
            Isometry::Rotation { .. } => Ok(Pose::of(motion)),
        }
    }
}

/// Runs calibration and samples through the rig: one pose per sample, in
/// the order of the samples.
pub fn track(config: &Config, calibration: &[Measurement], samples: &[Measurement]) -> (r: Result<
    Vec<Pose>,
    Error,
>)
    ensures
        match r {
            Ok(poses) => run_outcome(config.screws@, config.implant@, calibration@, samples@) == Ok::<
                Seq<Pose>,
                Error,
            >(poses@),
            Err(e) => run_outcome(config.screws@, config.implant@, calibration@, samples@) == Err::<
                Seq<Pose>,
                Error,
            >(e),
        },
{
    let mean = average(calibration)?;
    let baseline = config.screws.new_reading(&mean)?;
    let mut poses: Vec<Pose> = Vec::new();
    let mut i: usize = 0;
    while i < samples.len()
        invariant
            i <= samples@.len(),
            calibration@.len() > 0,
            baseline@ == with_heights(config.screws@, mean_of(calibration@)),
            refusal(baseline@) is None,
            poses_of(config.screws@, config.implant@, baseline@, samples@.take(i as int)) == Ok::<
                Seq<Pose>,
                Error,
            >(poses@),
        decreases samples@.len() - i,
    {
        assert(samples@.take(i as int + 1).drop_last() == samples@.take(i as int));
        assert(samples@.take(i as int + 1).last() == samples@[i as int]);
        match config.locate(&baseline, &samples[i]) {
            Ok(pose) => poses.push(pose),
            Err(e) => {
                proof {
                    lemma_refusal_persists(
                        config.screws@,
                        config.implant@,
                        baseline@,
                        samples@,
                        i as int + 1,
                    );
                }
                return Err(e);
            },
        }
        i += 1;
    }
    assert(samples@.take(i as int) == samples@);
    Ok(poses)
}

} // verus!
