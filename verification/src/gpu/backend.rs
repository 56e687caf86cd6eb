//! The compute platforms a device can run on, from the fastest GPU to the
//! CPU fallback.
use vstd::prelude::*;

verus! {

/// A compute platform.
#[derive(Clone, Copy, Debug, PartialEq, Eq, Structural)]
pub enum Backend {
    /// NVIDIA CUDA.
    Cuda,
    /// Apple Metal.
    Metal,
    /// OpenCL or Vulkan.
    Opencl,
    /// WebGPU compute shaders.
    Wgpu,
    /// CPU fallback.
    Cpu,
}

/// Priority rank of each platform, in declaration order.
pub open spec fn rank_of(b: Backend) -> u8 {
    match b {
        Backend::Cuda => 0,
        Backend::Metal => 1,
        Backend::Opencl => 2,
        Backend::Wgpu => 3,
        Backend::Cpu => 4,
    }
}

/// Relative speed rating of each platform.
pub open spec fn speed_of(b: Backend) -> usize {
    match b {
        Backend::Cuda => 100,
        Backend::Metal => 95,
        Backend::Opencl => 80,
        Backend::Wgpu => 70,
        Backend::Cpu => 10,
    }
}

/// Display name of each platform.
pub open spec fn title_of(b: Backend) -> Seq<char> {
    match b {
        Backend::Cuda => "CUDA (cuda:0)"@,
        Backend::Metal => "Metal"@,
        Backend::Opencl => "OpenCL"@,
        Backend::Wgpu => "WGPU"@,
        Backend::Cpu => "CPU"@,
    }
}

impl Backend {
    /// The display name.
    pub fn name(&self) -> (r: &'static str)
        ensures
            r@ == title_of(*self),
    {
        match self {
            Backend::Cuda => "CUDA (cuda:0)",
            Backend::Metal => "Metal",
            Backend::Opencl => "OpenCL",
            Backend::Wgpu => "WGPU",
            Backend::Cpu => "CPU",
        }
    }

    /// A GPU, not the CPU fallback.
    pub fn valid(&self) -> (r: bool)
        ensures
            r == (*self != Backend::Cpu),
    {
        !matches!(self, Backend::Cpu)
    }

    /// A hardware GPU platform.
    pub fn hardware(&self) -> (r: bool)
        ensures
            r == (*self != Backend::Cpu),
    {
        matches!(self, Backend::Cuda | Backend::Metal | Backend::Opencl | Backend::Wgpu)
    }

    /// Priority rank, lower first.
    pub fn rank(&self) -> (r: u8)
        ensures
            r == rank_of(*self),
    {
        match self {
            Backend::Cuda => 0,
            Backend::Metal => 1,
            Backend::Opencl => 2,
            Backend::Wgpu => 3,
            Backend::Cpu => 4,
        }
    }

    /// Relative speed rating.
    pub fn speed(&self) -> (r: usize)
        ensures
            r == speed_of(*self),
    {
        match self {
            Backend::Cuda => 100,
            Backend::Metal => 95,
            Backend::Opencl => 80,
            Backend::Wgpu => 70,
            Backend::Cpu => 10,
        }
    }
}

/// The graphics interface a wgpu adapter runs on.
#[derive(Clone, Copy, Debug, PartialEq, Eq, Structural)]
pub enum Platform {
    /// Apple Metal.
    Metal,
    /// Vulkan.
    Vulkan,
    /// DirectX 12.
    Dx12,
    /// OpenGL.
    Gl,
    /// Any other interface.
    Other,
}

/// What the platform decision needs to know of a wgpu adapter: its
/// interface, and whether it is a software renderer (a CPU device, or one
/// whose name names llvmpipe).
#[derive(Clone, Copy, Debug, PartialEq, Eq, Structural)]
pub struct Adapter {
    /// The interface it runs on.
    pub platform: Platform,
    /// It renders in software.
    pub software: bool,
}

/// The platform a hardware adapter's interface stands for: Metal for Metal,
/// OpenCL for Vulkan, WebGPU otherwise.
pub open spec fn platform_of(p: Platform) -> Backend {
    match p {
        Platform::Metal => Backend::Metal,
        Platform::Vulkan => Backend::Opencl,
        _ => Backend::Wgpu,
    }
}

impl Backend {
    /// The platform a hardware adapter's interface stands for.
    pub fn of_platform(p: Platform) -> (r: Backend)
        ensures
            r == platform_of(p),
    {
        match p {
            Platform::Metal => Backend::Metal,
            Platform::Vulkan => Backend::Opencl,
            Platform::Dx12 => Backend::Wgpu,
            Platform::Gl => Backend::Wgpu,
            Platform::Other => Backend::Wgpu,
        }
    }

    /// The platform of a machine from what detection found: CUDA when an
    /// NVIDIA driver is present; otherwise the CPU without an adapter or with
    /// a software one, else the adapter's platform.
    pub fn decide(nvidia: bool, adapter: Option<Adapter>) -> (r: Backend)
        ensures
            r == (if nvidia {
                Backend::Cuda
            } else {
                match adapter {
                    None => Backend::Cpu,
                    Some(a) => if a.software {
                        Backend::Cpu
                    } else {
                        platform_of(a.platform)
                    },
                }
            }),
    {
        if nvidia {
            return Backend::Cuda;
        }
        match adapter {
            None => Backend::Cpu,
            Some(a) => if a.software {
                Backend::Cpu
            } else {
                Backend::of_platform(a.platform)
            },
        }
    }

    /// The platform a device is set up on: a hardware adapter's platform;
    /// without one, OpenCL when a hardware OpenCL GPU answered, else the CPU.
    pub fn settle(opencl: bool, adapter: Option<Adapter>) -> (r: Backend)
        ensures
            r == (match adapter {
                Some(a) if !a.software => platform_of(a.platform),
                _ => if opencl {
                    Backend::Opencl
                } else {
                    Backend::Cpu
                },
            }),
    {
        let base = if opencl {
            Backend::Opencl
        } else {
            Backend::Cpu
        };
        match adapter {
            Some(a) => if a.software {
                base
            } else {
                Backend::of_platform(a.platform)
            },
            None => base,
        }
    }
}

} // verus!
