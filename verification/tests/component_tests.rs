use dust::dust_errors::DustError;
use dust::instance::{
    choose_graphics_queue_counts, choose_transfer_queue_counts, is_wanted_extension,
    score_physical_device_properties, select_queue_families, select_transfer_queues, QueueFamily,
    QUEUE_COMPUTE, QUEUE_GRAPHICS, QUEUE_TRANSFER,
};
use dust::pools::PoolRegistry;
use dust::shaders::{shader_type_for_path, ShaderType};
use dust::transfer::{map_access_flags, match_memory_type};
use dust::shaders::decode_shader_words;
use dust::vertex::{U8Vertex2, U8Vertex3, U8Vertex4, Vulkanic};

#[test]
fn u8_vertices_append_their_components() {
    let mut buffer: Vec<u8> = vec![0xFF];
    U8Vertex2::new([1, 2]).copy_into_vk_vec(&mut buffer);
    U8Vertex3::new([3, 4, 5]).copy_into_vk_vec(&mut buffer);
    U8Vertex4::new([6, 7, 8, 9]).copy_into_vk_vec(&mut buffer);
    assert_eq!(buffer, vec![0xFF, 1, 2, 3, 4, 5, 6, 7, 8, 9]);
}

#[test]
fn u8_vertices_write_in_place() {
    let mut buffer = [0u8; 8];
    let written = U8Vertex3::new([1, 2, 3]).copy_into_vk_buffer(&mut buffer, 2);
    assert_eq!(written, 3);
    assert_eq!(buffer, [0, 0, 1, 2, 3, 0, 0, 0]);

    let written = U8Vertex2::new([9, 8]).copy_into_vk_buffer(&mut buffer, 6);
    assert_eq!(written, 2);
    assert_eq!(buffer, [0, 0, 1, 2, 3, 0, 9, 8]);

    let written = U8Vertex4::new([4, 5, 6, 7]).copy_into_vk_buffer(&mut buffer, 0);
    assert_eq!(written, 4);
    assert_eq!(buffer, [4, 5, 6, 7, 3, 0, 9, 8]);
}

#[test]
fn shader_words_reassemble_little_endian() {
    let bytes = [1, 0, 0, 0, 0x78, 0x56, 0x34, 0x12];
    assert_eq!(decode_shader_words(&bytes), Some(vec![1, 0x12345678]));
}

#[test]
fn shader_words_need_whole_words() {
    assert_eq!(decode_shader_words(&[1, 2, 3]), None);
    assert_eq!(decode_shader_words(&[]), Some(vec![]));
}

#[test]
fn pool_registry_hands_back_what_was_registered() {
    let mut pools = PoolRegistry::new();
    pools.init(0xAAAA, 3, 0xBBBB, 7);
    assert_eq!(pools.get_graphics_queue_family(), 3);
    assert_eq!(pools.unsafe_get_graphics_queue_family(), 3);
    assert_eq!(pools.get_transfer_queue_family(), 7);
    assert_eq!(pools.unsafe_get_transfer_queue_family(), 7);
    assert_eq!(pools.get_graphics_pool(), 0xAAAA);
    assert_eq!(pools.get_transfer_pool(), 0xBBBB);
}

#[test]
fn shader_paths_classify_by_stage_name() {
    assert_eq!(shader_type_for_path("shaders/vertex/hud.spv"), Some(ShaderType::Vertex));
    assert_eq!(shader_type_for_path("shaders/fragment/hud.spv"), Some(ShaderType::Fragment));
    assert_eq!(shader_type_for_path("shaders/geometry/a.spv"), Some(ShaderType::Geometry));
    assert_eq!(shader_type_for_path("shaders/tess_ctrl/a.spv"), Some(ShaderType::TesselationControl));
    assert_eq!(shader_type_for_path("shaders/tess_eval/a.spv"), Some(ShaderType::TesselationEval));
    assert_eq!(shader_type_for_path("shaders/compute/a.spv"), Some(ShaderType::Compute));
    // A fragment stage name wins over a vertex one anywhere in the path.
    assert_eq!(shader_type_for_path("vertex/fragment.spv"), Some(ShaderType::Fragment));
    assert_eq!(shader_type_for_path("shaders/other/a.spv"), None);
}

#[test]
fn only_the_swapchain_extension_is_wanted() {
    assert!(is_wanted_extension("VK_KHR_swapchain"));
    assert!(!is_wanted_extension("VK_KHR_surface"));
    assert!(!is_wanted_extension("VK_KHR_swapchain2"));
    assert!(!is_wanted_extension(""));
}

#[test]
fn access_flags_follow_the_layout() {
    // The shader-read-only-optimal layout (raw value 5) owes every
    // shader read access bit.
    assert_eq!(map_access_flags(5), 0x3_0000_00B0);
    assert_eq!(map_access_flags(0), 0);
    assert_eq!(map_access_flags(7), 0);
}

#[test]
fn free_matcher_agrees_with_the_store() {
    let types = vec![2u32, 3, 1];
    assert_eq!(match_memory_type(&types, 0b111, 1), Ok(1));
    assert_eq!(match_memory_type(&types, 0b101, 1), Ok(2));
    assert_eq!(match_memory_type(&types, 0b111, 16), Err(DustError::NoMatchingMemoryType));
}

#[test]
fn device_scores_prefer_discrete_gpus() {
    // Discrete GPU from a vendor with the largest bonus.
    assert_eq!(score_physical_device_properties(2, 0x1002), 15);
    // Integrated GPU from another known vendor.
    assert_eq!(score_physical_device_properties(1, 0x8086), 7);
    // A CPU renderer from an unknown vendor barely registers.
    assert_eq!(score_physical_device_properties(4, 0x9999), 2);
    // Unknown device kinds keep only the vendor bonus.
    assert_eq!(score_physical_device_properties(3, 0x10de), 3);
}

#[test]
fn queue_selection_filters_and_orders_families() {
    let families = vec![
        QueueFamily { queue_flags: QUEUE_GRAPHICS | QUEUE_COMPUTE | QUEUE_TRANSFER, queue_count: 16 },
        QueueFamily { queue_flags: QUEUE_TRANSFER, queue_count: 2 },
        QueueFamily { queue_flags: QUEUE_COMPUTE | QUEUE_TRANSFER, queue_count: 8 },
        QueueFamily { queue_flags: QUEUE_GRAPHICS, queue_count: 1 },
    ];
    // Pure transfer families: transfer-capable without graphics.
    assert_eq!(select_transfer_queues(&families), vec![1, 2]);
    // Everything transfer-capable, graphics families included.
    assert_eq!(select_queue_families(&families, QUEUE_TRANSFER, 0), vec![0, 1, 2]);
    // No family offers nothing.
    assert_eq!(select_queue_families(&families, 0x100, 0), Vec::<u32>::new());
}

#[test]
fn queue_counts_follow_the_family_offer() {
    let families = vec![
        QueueFamily { queue_flags: QUEUE_TRANSFER, queue_count: 2 },
        QueueFamily { queue_flags: QUEUE_TRANSFER, queue_count: 9 },
    ];
    // Transfer queues are capped at five per family.
    assert_eq!(choose_transfer_queue_counts(&families, &vec![0, 1]), vec![2, 5]);
    // Graphics families get exactly one queue each.
    assert_eq!(choose_graphics_queue_counts(&families, &vec![0, 1]), vec![1, 1]);
}
