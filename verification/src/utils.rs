use vstd::prelude::*;

verus! {

// Compute-device selection. Probing what the machine offers is the host's
// work; the choice among the probed results is decided here.

/// The kinds of device a model may be loaded onto.
#[derive(Clone, Copy, Debug, PartialEq, Eq, Structural)]
pub enum DeviceKind {
    Cpu,
    Cuda,
    Metal,
}

/// The selection rule: an explicit request for the processor wins; then the
/// first available accelerator, trying cuda before metal; then the
/// processor as the fallback.
pub open spec fn device_choice(force_cpu: bool, cuda: bool, metal: bool) -> DeviceKind {
    if force_cpu {
        DeviceKind::Cpu
    } else if cuda {
        DeviceKind::Cuda
    } else if metal {
        DeviceKind::Metal
    } else {
        DeviceKind::Cpu
    }
}

/// Choose the device for the given probe results.
pub fn pick_device(force_cpu: bool, cuda_available: bool, metal_available: bool) -> (r: DeviceKind)
    ensures
        r == device_choice(force_cpu, cuda_available, metal_available),
{
    if force_cpu {
        DeviceKind::Cpu
    } else if cuda_available {
        DeviceKind::Cuda
    } else if metal_available {
        DeviceKind::Metal
    } else {
        DeviceKind::Cpu
    }
}

} // verus!
