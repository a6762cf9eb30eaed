use gsplat_render_wgpu::packed_atlas::{
    atlas_dimensions, measured_hot_texture_bytes, measured_sh_sidecar_texture_bytes,
    next_power_of_two, sh_sidecar_atlas_dimensions, slot_to_texel, HotStream,
    PackedAtlasCpuBuffers, PackedHotRecord, PackedShSidecar, FULL_DEGREE3_ATTRIBUTE_BYTES,
};

#[test]
fn hot_record_is_exactly_twenty_bytes() {
    assert_eq!(PackedHotRecord::byte_len(), 20);
    assert_eq!(
        HotStream::PositionOpacity.bytes_per_splat()
            + HotStream::ScaleFlags.bytes_per_splat()
            + HotStream::Rotation.bytes_per_splat()
            + HotStream::Color.bytes_per_splat(),
        20
    );
}

#[test]
fn degree3_sidecar_and_full_attribute_budgets() {
    assert_eq!(PackedShSidecar::byte_len(), 48);
    assert_eq!(FULL_DEGREE3_ATTRIBUTE_BYTES, 68);
}

#[test]
fn atlas_dimensions_cover_all_slots() {
    for count in [1, 2, 2048, 2049, 4096, 279_199] {
        let (width, height) = atlas_dimensions(count);
        assert!(width >= 1 && height >= 1);
        assert!(u64::from(width) * u64::from(height) >= count as u64);
        let (x, y) = slot_to_texel((count as u32).saturating_sub(1), width);
        assert!(x < width && y < height);
    }
}

#[test]
fn descriptor_resource_bytes_match_created_buffer_and_texture_shapes() {
    for count in [1_usize, 100, 2048, 279_199] {
        let capacity = count.max(1) as u64;
        let (sh_width, sh_height) = sh_sidecar_atlas_dimensions(count);
        let sh_texels = u64::from(sh_width) * u64::from(sh_height);
        let descriptor_total =
            measured_hot_texture_bytes(count) + measured_sh_sidecar_texture_bytes(count);
        assert_eq!(measured_hot_texture_bytes(count), capacity * 20);
        assert_eq!(measured_sh_sidecar_texture_bytes(count), sh_texels * 4);
        assert!(descriptor_total >= (count as u64) * 68);
        assert!(descriptor_total - (count as u64) * 68 < u64::from(sh_width) * 4);
    }
}

#[test]
fn storage_words_pack_position_lanes_low_half_first() {
    let record = PackedHotRecord {
        position_opacity: [0x1111, 0x2222, 0x3333, 0x4444],
        scale_flags: 5,
        rotation: 6,
        color: 7,
    };
    assert_eq!(
        record.to_storage_words(),
        [0x2222_1111, 0x4444_3333, 5, 6, 7]
    );
    let words = PackedAtlasCpuBuffers::hot_storage_words(&vec![record, record]);
    assert_eq!(words.len(), 10);
    assert_eq!(&words[5..], &[0x2222_1111, 0x4444_3333, 5, 6, 7]);
}

#[test]
fn sidecar_texel_bytes_reinterpret_signed_coefficients() {
    let mut coeffs = [0_i8; 45];
    coeffs[0] = -1;
    coeffs[44] = 5;
    let sidecar = PackedShSidecar {
        coeffs_i8: coeffs,
        pad: [0, 0, -128],
    };
    let bytes = sidecar.as_texel_bytes();
    assert_eq!(bytes[0], 0xff);
    assert_eq!(bytes[44], 5);
    assert_eq!(bytes[47], 0x80);
}

#[test]
fn staging_buffers_hold_one_sidecar_per_texel() {
    let sidecar = PackedShSidecar {
        coeffs_i8: [1; 45],
        pad: [0; 3],
    };
    let buffers = PackedAtlasCpuBuffers::from_sidecars(3, &vec![sidecar; 3]);
    let texels = u64::from(buffers.width) * u64::from(buffers.height);
    assert_eq!(buffers.sh_coeffs.len() as u64, texels * 48);
    assert_eq!(buffers.declared_cpu_staging_bytes(), buffers.sh_coeffs.len() as u64);
    assert_eq!(buffers.sh_coeffs[0], 1);
    assert_eq!(buffers.sh_coeffs[3 * 48 - 1], 0);
}

#[test]
fn atlas_width_is_a_power_of_two_up_to_the_texture_limit() {
    assert_eq!(next_power_of_two(1), 1);
    assert_eq!(next_power_of_two(3), 4);
    assert_eq!(next_power_of_two(2048), 2048);
    assert_eq!(atlas_dimensions(0), (1, 1));
    assert_eq!(atlas_dimensions(3), (4, 1));
    assert_eq!(atlas_dimensions(2049), (2048, 2));
    assert_eq!(slot_to_texel(2049, 2048), (1, 1));
}
