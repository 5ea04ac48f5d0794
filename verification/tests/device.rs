use demucs_core::error::{Error, Fault};
use demucs_core::gpu::device::{
    buffer_size, list_adapters, pick, rank, shuffle_reduction_is_safe, Adapter, Backend,
    DeviceInfo, DeviceSelector, DeviceType,
};

fn adapter(name: &str, device_type: DeviceType, backend: Backend) -> Adapter {
    Adapter {
        name: name.to_string(),
        vendor: 4318,
        device_type,
        driver: "driver".to_string(),
        driver_info: String::new(),
        backend,
        subgroup_min: 32,
        subgroup_max: 32,
    }
}

fn machine() -> Vec<Adapter> {
    vec![
        adapter("Software", DeviceType::Cpu, Backend::Vulkan),
        adapter("Intel UHD", DeviceType::IntegratedGpu, Backend::Vulkan),
        adapter("NVIDIA A", DeviceType::DiscreteGpu, Backend::Dx12),
        adapter("NVIDIA B", DeviceType::DiscreteGpu, Backend::Vulkan),
        adapter("NVIDIA C", DeviceType::DiscreteGpu, Backend::Vulkan),
        adapter("Virtual", DeviceType::VirtualGpu, Backend::Gl),
    ]
}

#[test]
fn selector_parses_runtimes_and_names() {
    assert_eq!(DeviceSelector::parse("auto").unwrap(), DeviceSelector::Auto);
    assert_eq!(DeviceSelector::parse("").unwrap(), DeviceSelector::Auto);
    assert_eq!(
        DeviceSelector::parse("vulkan").unwrap(),
        DeviceSelector::Runtime {
            api: Backend::Vulkan,
            index: 0
        }
    );
    assert_eq!(
        DeviceSelector::parse("vulkan:1").unwrap(),
        DeviceSelector::Runtime {
            api: Backend::Vulkan,
            index: 1
        }
    );
    assert_eq!(
        DeviceSelector::parse("nvidia").unwrap(),
        DeviceSelector::Name("nvidia".into())
    );
}

#[test]
fn selector_rejects_an_index_on_a_name() {
    assert!(DeviceSelector::parse("nvidia:2").is_err());
    assert!(DeviceSelector::parse("vulkan:x").is_err());
}

#[test]
fn selectors_are_read_without_case_or_white_space() {
    assert_eq!(DeviceSelector::parse("  AUTO\t").unwrap(), DeviceSelector::default());
    assert_eq!(
        DeviceSelector::parse(" Dx12:+3 ").unwrap(),
        DeviceSelector::Runtime { api: Backend::Dx12, index: 3 }
    );
    assert_eq!(
        DeviceSelector::parse("METAL").unwrap(),
        DeviceSelector::Runtime { api: Backend::Metal, index: 0 }
    );
    assert_eq!(
        DeviceSelector::parse("gl").unwrap().backends(),
        Some(Backend::Gl)
    );
    assert_eq!(DeviceSelector::parse("GeForce RTX").unwrap().backends(), None);
    assert_eq!(
        DeviceSelector::parse("vulkan:").unwrap_err().message(),
        format!("bad adapter index ``: {}", "".parse::<usize>().unwrap_err())
    );
    assert_eq!(
        DeviceSelector::parse("vulkan:two").unwrap_err().message(),
        format!("bad adapter index `two`: {}", "two".parse::<usize>().unwrap_err())
    );
    assert_eq!(
        DeviceSelector::parse(" amd:0").unwrap_err().message(),
        "`amd:0` is neither a runtime (`vulkan`, `metal`, `dx12`, `gl`) nor a plain name"
    );
}

#[test]
fn shuffle_reduction_requires_an_exact_32_lane_promise() {
    // Exactly 32 and the feature: safe.
    assert!(shuffle_reduction_is_safe(true, 32, 32));
    // The trap: a range that includes 32 still folds across the wrong lanes.
    assert!(!shuffle_reduction_is_safe(true, 8, 32));
    // No feature bit, no shuffle.
    assert!(!shuffle_reduction_is_safe(false, 32, 32));
}

#[test]
fn the_best_adapter_is_picked() {
    let adapters = machine();
    assert_eq!(pick(&adapters, &DeviceSelector::Auto), Ok(3));
    assert_eq!(pick(&adapters, &DeviceSelector::Name("nvidia a".into())), Ok(2));
    assert_eq!(pick(&adapters, &DeviceSelector::Name("INTEL".into())), Ok(1));
    let vulkan = |index| DeviceSelector::Runtime { api: Backend::Vulkan, index };
    assert_eq!(pick(&adapters, &vulkan(0)), Ok(3));
    assert_eq!(pick(&adapters, &vulkan(1)), Ok(4));
    assert_eq!(pick(&adapters, &vulkan(2)), Ok(1));
    assert_eq!(pick(&adapters, &vulkan(3)), Ok(0));
    assert_eq!(
        pick(&adapters, &vulkan(4)),
        Err(Error::Gpu(Fault::AdapterIndex { index: 4, found: 4 }))
    );
    for (selector, shown) in [
        (DeviceSelector::Name("radeon \"x\"\n".into()), r#"Name("radeon \"x\"\n")"#),
        (DeviceSelector::Runtime { api: Backend::Metal, index: 2 }, "Runtime { api: Metal, index: 2 }"),
    ] {
        assert_eq!(format!("{selector:?}"), shown);
        assert_eq!(
            pick(&adapters, &selector).unwrap_err().message(),
            format!("no adapter matched {shown}; run `demucs kernels` to list what is available")
        );
    }
    assert_eq!(
        pick(&vec![], &DeviceSelector::Auto).unwrap_err().message(),
        "no adapter matched Auto; run `demucs kernels` to list what is available"
    );
    assert_eq!(rank(&adapters[5]), (2, 3));
}

#[test]
fn a_listed_index_is_the_one_a_selector_addresses() {
    let adapters = machine();
    let list = list_adapters(&adapters);
    let shown: Vec<(String, usize, String, String)> = list
        .iter()
        .map(|e| (e.runtime.clone(), e.index, e.name.clone(), e.kind.clone()))
        .collect();
    let row = |r: &str, i: usize, n: &str, k: &str| {
        (r.to_string(), i, n.to_string(), k.to_string())
    };
    assert_eq!(
        shown,
        vec![
            row("vulkan", 0, "NVIDIA B", "dGPU"),
            row("vulkan", 1, "NVIDIA C", "dGPU"),
            row("vulkan", 2, "Intel UHD", "iGPU"),
            row("vulkan", 3, "Software", "CPU"),
            row("dx12", 0, "NVIDIA A", "dGPU"),
            row("gl", 0, "Virtual", "vGPU"),
        ]
    );
    for entry in &list {
        let selector = DeviceSelector::parse(&format!("{}:{}", entry.runtime, entry.index)).unwrap();
        let picked = pick(&adapters, &selector).unwrap();
        assert_eq!(adapters[picked].name, entry.name);
    }
}

#[test]
fn a_device_describes_itself() {
    let info = DeviceInfo::of(machine().remove(3), true, 2 << 30, 4 << 30);
    assert!(info.shuffle_reduction);
    assert_eq!(
        info.describe(),
        "Vulkan NVIDIA B (4318 dGPU, driver driver) binding 2048 MiB, subgroup 32"
    );
    let mut other = machine().remove(1);
    other.driver_info = "Mesa 24".to_string();
    other.subgroup_min = 8;
    let info = DeviceInfo::of(other, true, 128 << 20, 256 << 20);
    assert!(!info.shuffle_reduction);
    assert_eq!(
        info.describe(),
        "Vulkan Intel UHD (4318 iGPU, driver Mesa 24) binding 128 MiB, subgroup 8..32"
    );
}

#[test]
fn buffers_come_in_whole_steps() {
    assert_eq!(buffer_size(0, 16), 16);
    assert_eq!(buffer_size(17, 16), 32);
    assert_eq!(buffer_size(256, 256), 256);
    assert_eq!(buffer_size(257, 256), 512);
    assert_eq!(buffer_size(5, 4), 8);
}
