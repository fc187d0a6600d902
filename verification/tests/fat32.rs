use lib::fat32::ebpb::BiosParameterBlock;
use lib::fat32::entry::{Dir, Entry};
use lib::fat32::error::{Error, IoErrorKind};
use lib::fat32::fat::{Cluster, FatEntry, Status};
use lib::fat32::file::{File, SeekFrom};
use lib::fat32::metadata::{Attributes, Date, Metadata, Time, Timestamp};
use lib::fat32::vfat::{first_partition, ChainAction, ChainRead, Partition, VFat};

fn sample_ebpb() -> Vec<u8> {
    let mut s = vec![0u8; 512];
    s[11] = 0x00;
    s[12] = 0x02; // 512 bytes per sector
    s[13] = 8; // sectors per cluster
    s[14] = 0x20; // 32 reserved sectors
    s[16] = 2; // two FATs
    s[32] = 0x00;
    s[33] = 0x00;
    s[34] = 0x10; // 0x100000 sectors
    s[36] = 0xF1;
    s[37] = 0x03; // 1009 sectors per FAT
    s[44] = 2; // root directory at cluster 2
    s[510] = 0x55;
    s[511] = 0xAA;
    s
}

#[test]
fn ebpb_fields_decode_little_endian() {
    let b = BiosParameterBlock::from_bytes(&sample_ebpb()).unwrap();
    assert_eq!(b.get_bytes_per_sector(), 512);
    assert_eq!(b.get_sector_per_cluster(), 8);
    assert_eq!(b.get_reserved_sector(), 32);
    assert_eq!(b.get_number_FAT(), 2);
    assert_eq!(b.get_sector_per_fat(), 1009);
    assert_eq!(b.get_root_cluster(), 2);
    assert_eq!(b.get_total_sector(), 0x100000);
    assert_eq!(b.logical_sector(), 0);
    assert_eq!(b.get_partition_signature(), 0xAA55);
}

#[test]
fn ebpb_short_read_is_eof_error() {
    let s = vec![0u8; 100];
    assert_eq!(BiosParameterBlock::from_bytes(&s).err(), Some(Error::Io(IoErrorKind::UnexpectedEof)));
}

#[test]
fn ebpb_bad_signature() {
    let mut s = sample_ebpb();
    s[511] = 0xAB;
    assert_eq!(BiosParameterBlock::from_bytes(&s).err(), Some(Error::BadSignature));
}

#[test]
fn vfat_geometry_from_ebpb() {
    let b = BiosParameterBlock::from_bytes(&sample_ebpb()).unwrap();
    let v = VFat::from_ebpb(&b, 63);
    assert_eq!(v.bytes_per_sector, 512);
    assert_eq!(v.sectors_per_cluster, 8);
    assert_eq!(v.sectors_per_fat, 1009);
    assert_eq!(v.fat_start_sector, 32);
    assert_eq!(v.data_start_sector, 2 * 1009 + 32);
    assert_eq!(v.rootdir_cluster.get_cluster_value(), 2);
    assert_eq!(v.partition.start, 63);
    assert_eq!(v.partition.num_sectors, 0x100000);
    assert_eq!(v.partition.sector_size, 512);
    assert_eq!(v.cluster_size(), 4096);
}

#[test]
fn vfat_sector_count_prefers_small_field() {
    let mut s = sample_ebpb();
    s[32] = 0x00;
    s[33] = 0x10;
    s[34] = 0;
    s[19] = 0x34;
    s[20] = 0x12;
    let b = BiosParameterBlock::from_bytes(&s).unwrap();
    assert_eq!(VFat::from_ebpb(&b, 0).partition.num_sectors, 0x1234);
    s[19] = 0;
    s[20] = 0;
    let b = BiosParameterBlock::from_bytes(&s).unwrap();
    assert_eq!(VFat::from_ebpb(&b, 0).partition.num_sectors, 0x1000);
}

#[test]
fn map_cluster_entry_locates_fat_entry() {
    let b = BiosParameterBlock::from_bytes(&sample_ebpb()).unwrap();
    let v = VFat::from_ebpb(&b, 0);
    assert_eq!(v.map_cluster_entry(0), (32, 0));
    assert_eq!(v.map_cluster_entry(5), (32, 20));
    assert_eq!(v.map_cluster_entry(128), (33, 0));
    assert_eq!(v.map_cluster_entry(130), (33, 8));
}

#[test]
fn cluster_start_and_invalid_clusters() {
    let b = BiosParameterBlock::from_bytes(&sample_ebpb()).unwrap();
    let v = VFat::from_ebpb(&b, 0);
    assert_eq!(v.cluster_start(Cluster::from(2)), Ok(2050));
    assert_eq!(v.cluster_start(Cluster::from(5)), Ok(2050 + 24));
    assert_eq!(v.cluster_start(Cluster::from(1)), Err(Error::Io(IoErrorKind::InvalidInput)));
}

#[test]
fn read_cluster_copies_from_offset() {
    let b = BiosParameterBlock::from_bytes(&sample_ebpb()).unwrap();
    let v = VFat::from_ebpb(&b, 0);
    // Read 600 bytes starting 1000 bytes into the cluster: sectors 1 to 3.
    assert_eq!(v.cluster_read_sectors(1000, 600), (1, 3));
    let s1: Vec<u8> = (0..512).map(|i| (i % 251) as u8).collect();
    let s2: Vec<u8> = (0..512).map(|i| (i % 13) as u8).collect();
    let s3: Vec<u8> = (0..512).map(|i| (i % 7) as u8 + 100).collect();
    let mut buf = vec![0xEEu8; 700];
    let n = v
        .read_cluster(Cluster::from(3), 1000, &mut buf[..600], &[s1.clone(), s2.clone(), s3.clone()])
        .unwrap();
    assert_eq!(n, 600);
    assert_eq!(&buf[..24], &s1[488..512]);
    assert_eq!(&buf[24..536], &s2[..]);
    assert_eq!(&buf[536..600], &s3[..64]);
    assert_eq!(buf[600], 0xEE);
}

#[test]
fn read_cluster_stops_at_cluster_end() {
    let b = BiosParameterBlock::from_bytes(&sample_ebpb()).unwrap();
    let v = VFat::from_ebpb(&b, 0);
    assert_eq!(v.cluster_read_sectors(4000, 1000), (7, 1));
    let s7 = vec![9u8; 512];
    let mut buf = vec![0u8; 1000];
    let n = v.read_cluster(Cluster::from(2), 4000, &mut buf, &[s7]).unwrap();
    assert_eq!(n, 96);
    assert!(buf[..96].iter().all(|b| *b == 9));
    assert!(buf[96..].iter().all(|b| *b == 0));
    let mut buf2 = vec![1u8; 4];
    assert_eq!(v.read_cluster(Cluster::from(0), 0, &mut buf2, &[vec![0u8; 512]]), Err(Error::Io(IoErrorKind::InvalidInput)));
    assert_eq!(buf2, vec![1u8; 4]);
}

#[test]
fn fat_entry_status_ranges() {
    assert_eq!(FatEntry(0).status(), Status::Free);
    assert_eq!(FatEntry(1).status(), Status::Reserved);
    assert_eq!(FatEntry(2).status(), Status::Data(Cluster::from(2)));
    assert_eq!(FatEntry(0x0FFF_FFEF).status(), Status::Data(Cluster::from(0x0FFF_FFEF)));
    assert_eq!(FatEntry(0x0FFF_FFF0).status(), Status::Reserved);
    assert_eq!(FatEntry(0x0FFF_FFF6).status(), Status::Reserved);
    assert_eq!(FatEntry(0x0FFF_FFF7).status(), Status::Bad);
    assert_eq!(FatEntry(0x0FFF_FFF8).status(), Status::Eoc(0x0FFF_FFF8));
    assert_eq!(FatEntry(0x0FFF_FFFF).status(), Status::Eoc(0x0FFF_FFFF));
    // The reserved top bits are ignored when classifying...
    assert_eq!(FatEntry(0xF000_0000).status(), Status::Free);
    assert_eq!(FatEntry(0x1000_0005).status(), Status::Data(Cluster::from(0x1000_0005)));
    // ...but not in the reserved and end-of-chain ranges.
    assert_eq!(FatEntry(0xF000_0000 | 0x0FFF_FFF8).status(), Status::Bad);
}

#[test]
fn fat_entry_from_sector_bytes() {
    let mut sector = vec![0u8; 512];
    sector[8] = 0x78;
    sector[9] = 0x56;
    sector[10] = 0x34;
    sector[11] = 0x12;
    assert_eq!(VFat::fat_entry_at(&sector, 8), FatEntry(0x1234_5678));
}

#[test]
fn chain_steps() {
    assert_eq!(VFat::chain_next(Status::Data(Cluster::from(7))), Ok(Some(Cluster::from(7))));
    assert_eq!(VFat::chain_next(Status::Eoc(0x0FFF_FFFF)), Ok(None));
    assert_eq!(VFat::chain_next(Status::Free), Err(Error::Io(IoErrorKind::InvalidInput)));
    assert_eq!(VFat::chain_next(Status::Bad), Err(Error::Io(IoErrorKind::InvalidInput)));
    assert_eq!(VFat::chain_next(Status::Reserved), Err(Error::Io(IoErrorKind::InvalidInput)));
}

#[test]
fn mbr_first_partition() {
    let mut m = vec![0u8; 512];
    m[446 + 4] = 0x0C;
    m[446 + 8] = 0x00;
    m[446 + 9] = 0x08;
    m[510] = 0x55;
    m[511] = 0xAA;
    let p = first_partition(&m).unwrap();
    assert_eq!(p.relative_sector, 2048);
    assert!(p.is_fat32());
    m[446 + 4] = 0x83;
    assert!(!first_partition(&m).unwrap().is_fat32());
    m[510] = 0;
    assert_eq!(first_partition(&m), Err(Error::BadSignature));
    assert_eq!(first_partition(&m[..10]), Err(Error::Io(IoErrorKind::UnexpectedEof)));
}

#[test]
fn date_and_time_fields() {
    // 2019-03-15: year 39, month 3, day 15.
    let d = Date::new((39 << 9) | (3 << 5) | 15).unwrap();
    assert_eq!(d.year(), 2019);
    assert_eq!(d.month(), 3);
    assert_eq!(d.day(), 15);
    // 13:45:58: hour 13, minute 45, seconds/2 29.
    let t = Time::new((13 << 11) | (45 << 5) | 29).unwrap();
    assert_eq!(t.hour(), 13);
    assert_eq!(t.minute(), 45);
    assert_eq!(t.second(), 58);
    let ts = Timestamp { date: d, time: t };
    assert_eq!((ts.year(), ts.month(), ts.day()), (2019, 3, 15));
    assert_eq!((ts.hour(), ts.minute(), ts.second()), (13, 45, 58));
    // The smallest and largest dates and times the fields allow.
    let first = Timestamp { date: Date::new((1 << 5) | 1).unwrap(), time: Time::new(0).unwrap() };
    assert_eq!((first.year(), first.month(), first.day()), (1980, 1, 1));
    assert_eq!((first.hour(), first.minute(), first.second()), (0, 0, 0));
    let last = Timestamp {
        date: Date::new((127 << 9) | (12 << 5) | 31).unwrap(),
        time: Time::new((23 << 11) | (59 << 5) | 29).unwrap(),
    };
    assert_eq!((last.year(), last.month(), last.day()), (2107, 12, 31));
    assert_eq!((last.hour(), last.minute(), last.second()), (23, 59, 58));
}

#[test]
fn out_of_range_dates_and_times_are_refused() {
    assert!(Date::new(0).is_none());
    assert!(Date::new(1).is_none());
    assert!(Date::new(1 << 5).is_none());
    assert!(Date::new((13 << 5) | 1).is_none());
    assert!(Date::new(0xFFFF).is_none());
    assert!(Time::new(24 << 11).is_none());
    assert!(Time::new(60 << 5).is_none());
    assert!(Time::new(30).is_none());
    assert!(Time::new(0xFFFF).is_none());
    assert!(Time::new(29).is_some());
}

#[test]
fn attribute_flags() {
    let a = Attributes::new(0x01 | 0x04 | 0x20);
    assert!(a.read_only() && a.system() && a.archive());
    assert!(!a.hidden() && !a.volume_id() && !a.directory());
    let h = Attributes::new(0x02 | 0x08 | 0x10);
    assert!(h.hidden() && h.volume_id() && h.directory());
    assert!(!h.read_only() && !h.system() && !h.archive());
}

#[test]
fn metadata_default_and_new() {
    let m = Metadata::default();
    assert!(!m.read_only());
    assert!(!m.hidden());
    assert!(m.attributes.system());
    assert_eq!(m.created().year(), 1980);
    let t = Timestamp { date: Date::new((1 << 5) | 1).unwrap(), time: Time::new(2).unwrap() };
    let n = Metadata::new(t, m.accessed, t, Attributes::new(0x03));
    assert_eq!(n.created(), t);
    assert_eq!(n.modified(), t);
    assert_eq!(n.accessed(), m.accessed());
    assert!(n.read_only() && n.hidden());
}

fn sample_file(size: u64) -> File {
    File {
        start_cluster: Cluster::from(5),
        name: String::from("HELLO.TXT"),
        metadata: Metadata::default(),
        size,
        current_offset: 0,
        current_cluster: Cluster::from(5),
    }
}

#[test]
fn seek_within_and_beyond_file() {
    let mut f = sample_file(100);
    assert_eq!(f.seek(SeekFrom::Start(40)), Ok(40));
    assert_eq!(f.seek(SeekFrom::Current(10)), Ok(50));
    assert_eq!(f.seek(SeekFrom::Current(-20)), Ok(30));
    assert_eq!(f.seek(SeekFrom::Current(0)), Ok(30));
    assert_eq!(f.seek(SeekFrom::End(0)), Ok(100));
    assert_eq!(f.seek(SeekFrom::End(-100)), Ok(0));
    assert_eq!(f.seek(SeekFrom::Start(100)), Ok(100));
    assert_eq!(f.seek(SeekFrom::Start(101)), Err(IoErrorKind::InvalidInput));
    assert_eq!(f.current_offset, 100);
    assert_eq!(f.seek(SeekFrom::End(1)), Err(IoErrorKind::InvalidInput));
    assert_eq!(f.seek(SeekFrom::End(-101)), Err(IoErrorKind::InvalidInput));
    f.seek(SeekFrom::Start(10)).unwrap();
    assert_eq!(f.seek(SeekFrom::Current(-11)), Err(IoErrorKind::InvalidInput));
    assert_eq!(f.seek(SeekFrom::Current(91)), Err(IoErrorKind::InvalidInput));
    assert_eq!(f.current_offset, 10);
}

#[test]
fn read_copies_remaining_bytes() {
    let contents: Vec<u8> = (0..4096u32).map(|i| (i % 256) as u8).collect();
    let mut f = sample_file(300);
    let mut buf = vec![0u8; 256];
    assert_eq!(f.read(&contents, &mut buf), 256);
    assert_eq!(&buf[..], &contents[..256]);
    assert_eq!(f.current_offset, 256);
    let mut buf2 = vec![0xAAu8; 256];
    assert_eq!(f.read(&contents, &mut buf2), 44);
    assert_eq!(&buf2[..44], &contents[256..300]);
    assert!(buf2[44..].iter().all(|b| *b == 0xAA));
    assert_eq!(f.read(&contents, &mut buf2), 0);
    assert_eq!(f.current_offset, 300);
    f.seek(SeekFrom::Start(7)).unwrap();
    let mut one = [0u8; 1];
    assert_eq!(f.read(&contents, &mut one), 1);
    assert_eq!(one[0], 7);
}

#[test]
fn read_of_empty_file_returns_zero() {
    let mut f = sample_file(0);
    let mut buf = vec![0u8; 8];
    assert_eq!(f.read(&[], &mut buf), 0);
    assert_eq!(f.size(), 0);
}

#[test]
fn entry_accessors() {
    let f = sample_file(10);
    assert_eq!(f.name(), "HELLO.TXT");
    assert_eq!(*f.metadata(), Metadata::default());
    let e = Entry::File(f);
    assert_eq!(e.name(), "HELLO.TXT");
    assert!(e.as_file().is_some());
    assert!(e.as_dir().is_none());
    assert!(e.into_dir().is_none());
    let d = Entry::Dir(Dir {
        start_cluster: Cluster::from(2),
        name: String::from("/"),
        metadata: Metadata::new(
            Metadata::default().created,
            Metadata::default().accessed,
            Metadata::default().modified,
            Attributes::new(0x12),
        ),
    });
    assert_eq!(d.name(), "/");
    assert!(d.metadata().hidden());
    assert!(d.as_dir().is_some());
    assert!(d.as_file().is_none());
    let dir = d.into_dir().unwrap();
    assert_eq!(dir.start_cluster.get_cluster_value(), 2);
    assert!(Entry::File(sample_file(1)).into_file().is_some());
}

#[test]
fn chain_reading_steps() {
    let b = BiosParameterBlock::from_bytes(&sample_ebpb()).unwrap();
    let v = VFat::from_ebpb(&b, 0);
    assert_eq!(v.chain_start(Cluster::from(1)).err(), Some(Error::Io(IoErrorKind::InvalidInput)));
    let (mut st, a) = v.chain_start(Cluster::from(130)).unwrap();
    assert_eq!(a, ChainAction::ReadCluster { cluster: Cluster::from(130), buf_len: 4096 });
    assert_eq!(v.chain_after_cluster(&mut st, 4096), ChainAction::ReadFatEntry { sector: 33, offset: 8 });
    assert_eq!(
        v.chain_after_entry(&mut st, FatEntry(131)),
        Ok(ChainAction::ReadCluster { cluster: Cluster::from(131), buf_len: 8192 })
    );
    assert_eq!(st, ChainRead { current: Cluster::from(131), bytes_read: 4096, clusters: 2 });
    assert_eq!(v.chain_after_cluster(&mut st, 4096), ChainAction::ReadFatEntry { sector: 33, offset: 12 });
    assert_eq!(v.chain_after_entry(&mut st, FatEntry(0x0FFF_FFFF)), Ok(ChainAction::Done(8192)));
    assert_eq!(v.chain_after_entry(&mut st, FatEntry(0)), Err(Error::Io(IoErrorKind::InvalidInput)));
}

#[test]
fn partition_device_sectors() {
    let p = Partition { start: 2048, num_sectors: 100, sector_size: 4096 };
    assert_eq!(p.device_sectors(0, 512), (2048, 8));
    assert_eq!(p.device_sectors(3, 512), (2048 + 24, 8));
    let q = Partition { start: 63, num_sectors: 100, sector_size: 512 };
    assert_eq!(q.device_sectors(5, 512), (68, 1));
    assert_eq!(q.device_sectors(5, 4096), (68, 1));
}

#[test]
fn chain_offset_grows_buffer_one_cluster_less() {
    let b = BiosParameterBlock::from_bytes(&sample_ebpb()).unwrap();
    let v = VFat::from_ebpb(&b, 0);
    let (mut st, _) = v.chain_start(Cluster::from(130)).unwrap();
    v.chain_after_cluster(&mut st, 4096);
    assert_eq!(
        v.chain_offset_after_entry(&mut st, FatEntry(131)),
        Ok(ChainAction::ReadCluster { cluster: Cluster::from(131), buf_len: 4096 })
    );
    assert_eq!(st, ChainRead { current: Cluster::from(131), bytes_read: 4096, clusters: 2 });
    v.chain_after_cluster(&mut st, 100);
    assert_eq!(v.chain_offset_after_entry(&mut st, FatEntry(0x0FFF_FFF8)), Ok(ChainAction::Done(4196)));
    assert_eq!(v.chain_offset_after_entry(&mut st, FatEntry(1)), Err(Error::Io(IoErrorKind::InvalidInput)));
}

#[test]
fn open_starts_at_root_with_the_names_to_look_up() {
    let b = BiosParameterBlock::from_bytes(&sample_ebpb()).unwrap();
    let v = VFat::from_ebpb(&b, 0);
    assert_eq!(v.open_start(b"rel/path").err(), Some(Error::Io(IoErrorKind::InvalidInput)));
    assert_eq!(v.open_start(b"").err(), Some(Error::Io(IoErrorKind::InvalidInput)));
    let (root, names) = v.open_start(b"/a/./b/../c/").unwrap();
    assert_eq!(root.name, "/");
    assert_eq!(root.start_cluster, v.rootdir_cluster);
    assert!(root.metadata.attributes.system());
    assert_eq!(names, vec![b"a".to_vec(), b"b".to_vec(), b"c".to_vec()]);
    let (_, none) = v.open_start(b"/").unwrap();
    assert!(none.is_empty());
}
