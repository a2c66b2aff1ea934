use argb_core::sensors::{
    mahm_entries, mahm_layout, mahm_span, metric_slot, Filled, MahmLayout, MetricSlot,
};

const ENTRY_SIZE: usize = 1324;
const HEADER_SIZE: usize = 32;

fn entry(name: &[u8], value: f32, max: f32) -> Vec<u8> {
    let mut e = vec![0u8; ENTRY_SIZE];
    e[..name.len()].copy_from_slice(name);
    e[1300..1304].copy_from_slice(&value.to_le_bytes());
    e[1308..1312].copy_from_slice(&max.to_le_bytes());
    e
}

fn blob(sig: &[u8; 4], entries: &[Vec<u8>]) -> Vec<u8> {
    let mut b = vec![0u8; HEADER_SIZE];
    b[0..4].copy_from_slice(sig);
    b[4..8].copy_from_slice(&0x20000u32.to_le_bytes());
    b[8..12].copy_from_slice(&(HEADER_SIZE as u32).to_le_bytes());
    b[12..16].copy_from_slice(&(entries.len() as u32).to_le_bytes());
    b[16..20].copy_from_slice(&(ENTRY_SIZE as u32).to_le_bytes());
    for e in entries {
        b.extend_from_slice(e);
    }
    b
}

#[test]
fn layout_and_entries_are_read_from_the_copy() {
    let b = blob(b"MAHM", &[entry(b"CPU temperature", 61.5, 100.0), entry(b"  GPU usage \xff", 40.0, 100.0)]);
    let layout = mahm_layout(&b).expect("valid header");
    assert_eq!(layout, MahmLayout { header_size: 32, num_entries: 2, entry_size: 1324 });
    assert_eq!(mahm_span(&layout), (32 + 1324 + 1312) as u64);
    let entries = mahm_entries(&b, &layout);
    assert_eq!(entries.len(), 2);
    assert_eq!(entries[0].name, "CPU temperature");
    assert_eq!(f32::from_bits(entries[0].data_bits), 61.5);
    assert_eq!(f32::from_bits(entries[0].max_bits), 100.0);
    assert_eq!(entries[1].name, "GPU usage \u{FFFD}");
    assert_eq!(f32::from_bits(entries[1].data_bits), 40.0);
}

#[test]
fn both_signature_byte_orders_are_accepted() {
    let b = blob(b"MHAM", &[entry(b"Framerate", 144.0, 240.0)]);
    assert!(mahm_layout(&b).is_some());
}

#[test]
fn dead_foreign_or_malformed_headers_are_refused() {
    let mut dead = blob(b"MAHM", &[entry(b"x", 1.0, 1.0)]);
    dead[0..4].copy_from_slice(&0xDEADu32.to_le_bytes());
    assert!(mahm_layout(&dead).is_none());
    assert!(mahm_layout(&blob(b"ABCD", &[entry(b"x", 1.0, 1.0)])).is_none());
    assert!(mahm_layout(&blob(b"MAHM", &[])).is_none());
    let mut small_entries = blob(b"MAHM", &[entry(b"x", 1.0, 1.0)]);
    small_entries[16..20].copy_from_slice(&1303u32.to_le_bytes());
    assert!(mahm_layout(&small_entries).is_none());
    let mut too_many = blob(b"MAHM", &[entry(b"x", 1.0, 1.0)]);
    too_many[12..16].copy_from_slice(&4097u32.to_le_bytes());
    assert!(mahm_layout(&too_many).is_none());
    assert!(mahm_layout(&[0u8; 19]).is_none());
}

#[test]
fn aggregate_sources_win_and_per_core_sources_fill_gaps() {
    let none = Filled { cpu_temp: false, gpu_temp: false, cpu_load: false, gpu_load: false };
    let all = Filled { cpu_temp: true, gpu_temp: true, cpu_load: true, gpu_load: true };
    assert_eq!(metric_slot("CPU temperature", true, true, all), MetricSlot::CpuTemp);
    assert_eq!(metric_slot("cpu TEMPERATURE", true, true, all), MetricSlot::CpuTemp);
    assert_eq!(metric_slot("GPU temperature", true, true, all), MetricSlot::GpuTemp);
    assert_eq!(metric_slot("CPU1 temperature", true, true, none), MetricSlot::CpuTemp);
    assert_eq!(metric_slot("CPU1 temperature", true, true, all), MetricSlot::Skip);
    assert_eq!(metric_slot("GPU2 temperature", true, true, none), MetricSlot::GpuTemp);
    assert_eq!(metric_slot("CPU temperature", true, false, none), MetricSlot::Skip);
    assert_eq!(metric_slot("CPU usage", true, false, all), MetricSlot::CpuLoad);
    assert_eq!(metric_slot("GPU usage", true, false, all), MetricSlot::GpuLoad);
    assert_eq!(metric_slot("CPU3 usage", true, false, none), MetricSlot::CpuLoad);
    assert_eq!(metric_slot("GPU1 usage", true, false, all), MetricSlot::Skip);
    assert_eq!(metric_slot("RAM usage", true, false, all), MetricSlot::RamUsage);
    assert_eq!(metric_slot("framerate", true, false, all), MetricSlot::Framerate);
    assert_eq!(metric_slot("Fan speed", true, true, none), MetricSlot::Skip);
    assert_eq!(metric_slot("CPU temperature", false, true, none), MetricSlot::Skip);
}
