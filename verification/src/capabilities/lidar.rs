//! Lidar capability: builds scans from the Webots `Lidar` device, as polar
//! ranges or as a cartesian point cloud depending on the component's declared
//! `output`.
//!
//! Geometry and range limits are read off the device rather than the manifest:
//! the world's `Lidar` node is what actually decides them, so reporting the
//! authored numbers instead would let a scan describe a sensor nobody built.

use super::{SampledSpec, SensorHealth};
use crate::binary64::Binary64;
use vstd::prelude::*;

verus! {

/// What a lidar component declares it produces.
#[derive(Clone, Copy, Debug, PartialEq, Eq, Structural)]
pub enum LidarOutput {
    Ranges,
    Points,
}

/// One lidar capability the robot declares.
#[derive(Clone, Debug)]
pub struct LidarSpec {
    pub sampled: SampledSpec,
    pub output: LidarOutput,
}

impl LidarSpec {
    /// Whether the device is opened to report a point cloud.
    pub fn point_cloud(&self) -> (point_cloud: bool)
        ensures
            point_cloud == (self.output == LidarOutput::Points),
    {
        match self.output {
            LidarOutput::Points => true,
            LidarOutput::Ranges => false,
        }
    }
}

/// One point of a cloud, in metres.
#[derive(Clone, Copy, Debug, PartialEq, Eq, Structural)]
pub struct Point {
    pub x: Binary64,
    pub y: Binary64,
    pub z: Binary64,
}

/// What the device reports for one sweep.
pub enum LidarReading {
    RangeImage(Vec<Binary64>),
    PointCloud(Vec<Point>),
}

/// One ray of a scan.
#[derive(Clone, Copy, Debug, PartialEq, Eq, Structural)]
pub enum RangeSample {
    Valid(Binary64),
    Invalid,
}

/// One point of a scan.
#[derive(Clone, Copy, Debug, PartialEq, Eq, Structural)]
pub enum PointSample {
    Valid(Point),
    Invalid,
}

/// The polar geometry of one horizontal sweep.
#[derive(Clone, Copy, Debug, PartialEq, Eq, Structural)]
pub struct ScanGeometry {
    pub angle_min_rad: Binary64,
    pub angle_increment_rad: Binary64,
}

/// The distances the device can tell.
#[derive(Clone, Copy, Debug, PartialEq, Eq, Structural)]
pub struct RangeLimits {
    pub min_m: Binary64,
    pub max_m: Binary64,
}

/// One scan as the contract carries it.
#[derive(Debug, PartialEq, Eq)]
pub enum Scan {
    Ranges {
        ranges: Vec<RangeSample>,
        geometry: Option<ScanGeometry>,
        limits: RangeLimits,
        valid_points: u32,
        health: SensorHealth,
    },
    Points {
        points: Vec<PointSample>,
        limits: RangeLimits,
        valid_points: u32,
        health: SensorHealth,
    },
}

/// A ray that saw nothing is marked so, rather than given a made-up distance.
pub open spec fn range_sample(range: Binary64) -> RangeSample {
    if range.finite() {
        RangeSample::Valid(range)
    } else {
        RangeSample::Invalid
    }
}

/// A point is valid when every axis of it is finite.
pub open spec fn point_sample(point: Point) -> PointSample {
    if point.x.finite() && point.y.finite() && point.z.finite() {
        PointSample::Valid(point)
    } else {
        PointSample::Invalid
    }
}

/// How many of the rays saw something.
pub open spec fn valid_ranges(samples: Seq<RangeSample>) -> nat {
    samples.filter(|sample: RangeSample| sample is Valid).len()
}

/// How many of the points are valid.
pub open spec fn valid_points(samples: Seq<PointSample>) -> nat {
    samples.filter(|sample: PointSample| sample is Valid).len()
}

/// A bound lidar: the geometry and limits its device reported when it was
/// opened.
#[derive(Clone, Copy, Debug, PartialEq, Eq, Structural)]
pub struct NativeLidar {
    pub geometry: Option<ScanGeometry>,
    pub limits: RangeLimits,
}

impl NativeLidar {
    /// The scan one reading becomes.
    pub fn read(&self, reading: &LidarReading) -> (scan: Scan)
        ensures
            match *reading {
                LidarReading::RangeImage(image) => {
                    &&& scan matches Scan::Ranges { ranges, geometry, limits, valid_points, health }
                    &&& ranges@ == image@.map_values(|range: Binary64| range_sample(range))
                    &&& geometry == self.geometry
                    &&& limits == self.limits
                    &&& valid_points == valid_ranges(ranges@) as u32
                    &&& health == SensorHealth::Nominal
                },
                LidarReading::PointCloud(cloud) => {
                    &&& scan matches Scan::Points { points, limits, valid_points: count, health }
                    &&& points@ == cloud@.map_values(|point: Point| point_sample(point))
                    &&& limits == self.limits
                    &&& count == valid_points(points@) as u32
                    &&& health == SensorHealth::Nominal
                },
            },
    {
        match reading {
            LidarReading::RangeImage(image) => {
                let (ranges, valid) = range_samples(image);
                Scan::Ranges {
                    ranges,
                    geometry: self.geometry,
                    limits: self.limits,
                    valid_points: valid as u32,
                    health: SensorHealth::Nominal,
                }
            },
            LidarReading::PointCloud(cloud) => {
                let (points, valid) = point_samples(cloud);
                Scan::Points {
                    points,
                    limits: self.limits,
                    valid_points: valid as u32,
                    health: SensorHealth::Nominal,
                }
            },
        }
    }
}

fn range_samples(image: &Vec<Binary64>) -> (counted: (Vec<RangeSample>, usize))
    ensures
        counted.0@ == image@.map_values(|range: Binary64| range_sample(range)),
        counted.1 == valid_ranges(counted.0@),
{
    let mut samples: Vec<RangeSample> = Vec::new();
    let mut valid: usize = 0;
    let mut index: usize = 0;
    proof {
        reveal(Seq::filter);
    }
    while index < image.len()
        invariant
            index <= image@.len(),
            samples@.len() == index,
            forall|i: int| 0 <= i < index ==> samples@[i] == range_sample(image@[i]),
            valid == valid_ranges(samples@),
            valid <= index,
        decreases image@.len() - index,
    {
        let range = image[index];
        let ghost before = samples@;
        if range.is_finite() {
            samples.push(RangeSample::Valid(range));
            valid = valid + 1;
        } else {
            samples.push(RangeSample::Invalid);
        }
        index = index + 1;
        proof {
            reveal(Seq::filter);
            assert(samples@.drop_last() =~= before);
        }
    }
    assert(samples@ =~= image@.map_values(|range: Binary64| range_sample(range)));
    (samples, valid)
}

fn point_samples(cloud: &Vec<Point>) -> (counted: (Vec<PointSample>, usize))
    ensures
        counted.0@ == cloud@.map_values(|point: Point| point_sample(point)),
        counted.1 == valid_points(counted.0@),
{
    let mut samples: Vec<PointSample> = Vec::new();
    let mut valid: usize = 0;
    let mut index: usize = 0;
    proof {
        reveal(Seq::filter);
    }
    while index < cloud.len()
        invariant
            index <= cloud@.len(),
            samples@.len() == index,
            forall|i: int| 0 <= i < index ==> samples@[i] == point_sample(cloud@[i]),
            valid == valid_points(samples@),
            valid <= index,
        decreases cloud@.len() - index,
    {
        let point = cloud[index];
        let ghost before = samples@;
        if point.x.is_finite() && point.y.is_finite() && point.z.is_finite() {
            samples.push(PointSample::Valid(point));
            valid = valid + 1;
        } else {
            samples.push(PointSample::Invalid);
        }
        index = index + 1;
        proof {
            reveal(Seq::filter);
            assert(samples@.drop_last() =~= before);
        }
    }
    assert(samples@ =~= cloud@.map_values(|point: Point| point_sample(point)));
    (samples, valid)
}

/// How many gaps between rays the field of view is spread across, when the
/// sweep has a polar geometry at all.
///
/// A single-ray lidar has no increment to report, and a non-finite field of
/// view describes no sweep at all, so both yield `None` rather than an invented
/// angle.
pub fn scan_geometry(fov_rad: Binary64, horizontal_resolution: i32) -> (gaps: Option<i32>)
    ensures
        gaps == if fov_rad.finite() && fov_rad.above_zero() && horizontal_resolution >= 2 {
            Some((horizontal_resolution - 1) as i32)
        } else {
            None
        },
{
    if !fov_rad.is_finite() || !fov_rad.is_positive() || horizontal_resolution < 2 {
        return None;
    }
    Some(horizontal_resolution - 1)
}

/// A ray is valid, at the distance it was read at, exactly where that is a
/// finite number; a point exactly where all three of its axes are.
pub proof fn law_only_finite_readings_are_valid(range: Binary64, point: Point)
    ensures
        range.finite() ==> range_sample(range) == RangeSample::Valid(range),
        !range.finite() ==> range_sample(range) == RangeSample::Invalid,
        point.x.finite() && point.y.finite() && point.z.finite() ==> point_sample(point)
            == PointSample::Valid(point),
        !point.x.finite() || !point.y.finite() || !point.z.finite() ==> point_sample(point)
            == PointSample::Invalid,
{
}

/// The count of a scan grows by one with each valid ray and not with the
/// others, from zero for none.
pub proof fn law_valid_rays_are_counted(samples: Seq<RangeSample>, range: Binary64)
    ensures
        valid_ranges(Seq::empty()) == 0,
        valid_ranges(samples.push(RangeSample::Valid(range))) == valid_ranges(samples) + 1,
        valid_ranges(samples.push(RangeSample::Invalid)) == valid_ranges(samples),
{
    reveal(Seq::filter);
    assert(samples.push(RangeSample::Valid(range)).drop_last() =~= samples);
    assert(samples.push(RangeSample::Invalid).drop_last() =~= samples);
}

/// The count of a scan grows by one with each valid point and not with the
/// others, from zero for none.
pub proof fn law_valid_points_are_counted(samples: Seq<PointSample>, point: Point)
    ensures
        valid_points(Seq::empty()) == 0,
        valid_points(samples.push(PointSample::Valid(point))) == valid_points(samples) + 1,
        valid_points(samples.push(PointSample::Invalid)) == valid_points(samples),
{
    reveal(Seq::filter);
    assert(samples.push(PointSample::Valid(point)).drop_last() =~= samples);
    assert(samples.push(PointSample::Invalid).drop_last() =~= samples);
}

} // verus!
