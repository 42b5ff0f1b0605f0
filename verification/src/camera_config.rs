use vstd::prelude::*;
use crate::support::{decode_dev_number, dev_number, dev_path_decodable, dev_path_sliceable};

verus! {

/// Why a camera configuration could not be read.
#[derive(Debug, Clone, PartialEq, Eq)]
pub enum CameraConfigError {
    /// No configuration file at the given path.
    FileNotFound(String),
    /// The file could not be read or does not hold a device list.
    Invalid(String),
}

/// The list of video devices to open, such as `/dev/video0`.
pub struct CameraConfig {
    pub device: Vec<String>,
}

/// Keeps the devices other than `camera`.
pub open spec fn other_than(camera: Seq<char>) -> spec_fn(String) -> bool {
    |d: String| d@ != camera
}

/// The device number read from each device path, 0 where none can be read.
pub open spec fn device_numbers(devices: Seq<String>) -> Seq<i32> {
    devices.map_values(
        |d: String|
            match dev_number(d@) {
                Some(n) => n,
                None => 0i32,
            },
    )
}

impl CameraConfig {
    /// Appends `list_of_cameras`, in order, to the device list.
    pub fn add_cameras(&mut self, list_of_cameras: Vec<String>)
        ensures
            final(self).device@ == old(self).device@ + list_of_cameras@,
    {
        let mut list = list_of_cameras;
        self.device.append(&mut list);
    }

    /// Removes every device named `camera`; the others keep their order.
    pub fn remove_cameras(&mut self, camera: String)
        ensures
            final(self).device@ == old(self).device@.filter(other_than(camera@)),
    {
        let ghost old_devices = self.device@;
        let mut kept: Vec<String> = Vec::new();
        let n: usize = self.device.len();
        let mut i: usize = 0;
        while i < n
            invariant
                i <= n,
                n == old_devices.len(),
                self.device@ == old_devices,
                kept@ == old_devices.take(i as int).filter(other_than(camera@)),
            decreases n - i,
        {
            proof {
                reveal(Seq::filter);
                assert(old_devices.take(i + 1).drop_last() =~= old_devices.take(i as int));
            }
            if self.device[i] != camera {
                kept.push(self.device[i].clone());
            }
            i = i + 1;
        }
        proof {
            assert(old_devices.take(n as int) =~= old_devices);
        }
        self.device = kept;
    }

    /// Whether the device number of every device path can be read (see
    /// `get_video_device_list`).
    pub fn device_paths_decodable(&self) -> (r: bool)
        ensures
            r == forall|i: int|
                0 <= i < self.device@.len() ==> dev_path_sliceable(#[trigger] self.device@[i]@),
    {
        let n: usize = self.device.len();
        let mut i: usize = 0;
        while i < n
            invariant
                i <= n,
                n == self.device@.len(),
                forall|j: int| 0 <= j < i ==> dev_path_sliceable(#[trigger] self.device@[j]@),
            decreases n - i,
        {
            if !dev_path_decodable(self.device[i].as_str()) {
                return false;
            }
            i = i + 1;
        }
        true
    }

    /// The device number of each device, in order; 0 for a device whose path
    /// ends in no number.
    pub fn get_video_device_list(self) -> (r: Result<Vec<i32>, CameraConfigError>)
        requires
            forall|i: int| 0 <= i < self.device@.len() ==> dev_path_sliceable(#[trigger] self.device@[i]@),
        ensures
            r matches Ok(v) && v@ == device_numbers(self.device@),
    {
        let mut res: Vec<i32> = Vec::new();
        let n: usize = self.device.len();
        let mut i: usize = 0;
        while i < n
            invariant
                i <= n,
                n == self.device@.len(),
                forall|j: int| 0 <= j < self.device@.len() ==> dev_path_sliceable(#[trigger] self.device@[j]@),
                res@ == device_numbers(self.device@.take(i as int)),
            decreases n - i,
        {
            let number: i32 = match decode_dev_number(self.device[i].as_str()) {
                Some(f) => f,
                None => 0,
            };
            res.push(number);
            i = i + 1;
            proof {
                assert(res@ =~= device_numbers(self.device@.take(i as int)));
            }
        }
        proof {
            assert(self.device@.take(n as int) =~= self.device@);
        }
        Ok(res)
    }
}

proof fn lemma_filter_keeps_all(devices: Seq<String>, camera: Seq<char>)
    requires
        forall|i: int| 0 <= i < devices.len() ==> (#[trigger] devices[i])@ != camera,
    ensures
        devices.filter(other_than(camera)) == devices,
    decreases devices.len(),
{
    reveal(Seq::filter);
    if devices.len() > 0 {
        let prev = devices.drop_last();
        assert forall|i: int| 0 <= i < prev.len() implies (#[trigger] prev[i])@ != camera by {
            assert(prev[i] == devices[i]);
        }
        lemma_filter_keeps_all(prev, camera);
        assert(devices[devices.len() - 1] == devices.last());
        assert(prev.push(devices.last()) =~= devices);
    }
}

/// Removing a camera that was just added to a list that did not name it gives
/// back the list as it was.
pub proof fn law_remove_undoes_add(devices: Seq<String>, camera: String)
    requires
        forall|i: int| 0 <= i < devices.len() ==> (#[trigger] devices[i])@ != camera@,
    ensures
        (devices + seq![camera]).filter(other_than(camera@)) == devices,
{
    reveal(Seq::filter);
    let all = devices + seq![camera];
    assert(all.drop_last() =~= devices);
    lemma_filter_keeps_all(devices, camera@);
}

/// After a removal no device carries the removed name, and every device with
/// another name is still listed.
pub proof fn law_remove_exact(devices: Seq<String>, camera: String)
    ensures
        forall|i: int|
            0 <= i < devices.filter(other_than(camera@)).len() ==> (#[trigger] devices.filter(
                other_than(camera@),
            )[i])@ != camera@,
        forall|i: int|
            0 <= i < devices.len() && (#[trigger] devices[i])@ != camera@ ==> devices.filter(
                other_than(camera@),
            ).contains(devices[i]),
{
    let p = other_than(camera@);
    assert forall|i: int| 0 <= i < devices.filter(p).len() implies (#[trigger] devices.filter(p)[i])@ != camera@ by {
        devices.lemma_filter_pred(p, i);
    }
    assert forall|i: int| 0 <= i < devices.len() && (#[trigger] devices[i])@ != camera@ implies devices.filter(p).contains(devices[i]) by {
        devices.lemma_filter_contains(p, i);
    }
}

}
