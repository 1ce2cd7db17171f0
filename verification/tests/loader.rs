use ease::process::LoadError;
use ease::region::Order;
use ease::userloader::{
    load_user_image, Image, LinkedSections, Plan, Program, Programs, Segment, Source, Transfer,
};
use ease::usermem::{MemoryMap, Role, UserLayout};

fn linked() -> LinkedSections {
    LinkedSections { text_lma: 0x2000_0000, text_size: 4096, data_lma: 0x2000_2000, data_size: 2048, bss_size: 2048 }
}

fn layout() -> UserLayout {
    UserLayout { text_start: 0x8040_0000, data_start: 0x8040_1000, bss_start: 0x8040_1800 }
}

fn blob(len: usize) -> &'static [u8] {
    Box::leak(vec![0u8; len].into_boxed_slice())
}

#[test]
fn loader_flash_plan_copies_from_linked_sections() {
    let plan = Plan::from_image(Image::Flash(0x2000_0100), &linked()).unwrap();
    assert_eq!(plan.text, Segment { source: Some(Source::Flash(0x2000_0000)), size: 4096 });
    assert_eq!(plan.data, Segment { source: Some(Source::Flash(0x2000_2000)), size: 2048 });
    assert_eq!(plan.bss, Segment { source: None, size: 2048 });
}

#[test]
fn loader_blob_plan_splits_text_and_data() {
    let plan = Plan::from_image(Image::Blob(blob(6144)), &linked()).unwrap();
    assert_eq!(plan.text, Segment { source: Some(Source::Blob(0)), size: 4096 });
    assert_eq!(plan.data, Segment { source: Some(Source::Blob(4096)), size: 2048 });
    assert_eq!(plan.bss, Segment { source: None, size: 2048 });
}

#[test]
fn loader_blob_of_wrong_size_is_refused() {
    assert_eq!(Plan::from_image(Image::Blob(blob(6143)), &linked()).err(), Some(LoadError::MismatchedBlobSize));
    assert_eq!(Plan::from_image(Image::Blob(blob(6145)), &linked()).err(), Some(LoadError::MismatchedBlobSize));
    assert_eq!(Plan::from_image(Image::Blob(blob(0)), &linked()).err(), Some(LoadError::MismatchedBlobSize));
    assert!(matches!(
        load_user_image(Image::Blob(blob(10)), &linked(), &layout(), 0x2000_0400),
        Err(LoadError::MismatchedBlobSize)
    ));
}

#[test]
fn loader_copy_targets_the_process_segments() {
    let mut map = MemoryMap::new();
    assert!(map.try_for_process(&layout()).is_ok());
    let plan = Plan::from_image(Image::Flash(0x2000_0100), &linked()).unwrap();
    let t = plan.copy_user_image(&map);
    assert_eq!(
        t,
        vec![
            Transfer { source: Some(Source::Flash(0x2000_0000)), dest: 0x8040_0000, len: 4096 },
            Transfer { source: Some(Source::Flash(0x2000_2000)), dest: 0x8040_1000, len: 2048 },
            Transfer { source: None, dest: 0x8040_1800, len: 2048 },
        ]
    );
}

#[test]
fn loader_blob_enters_at_text_and_returns_to_zero() {
    let (loaded, transfers) = load_user_image(Image::Blob(blob(6144)), &linked(), &layout(), 0x2000_0400).unwrap();
    assert_eq!(loaded.entry, 0x8040_0000);
    assert_eq!(loaded.entry_ra, 0);
    assert_eq!(transfers[0], Transfer { source: Some(Source::Blob(0)), dest: 0x8040_0000, len: 4096 });
    assert_eq!(transfers[1], Transfer { source: Some(Source::Blob(4096)), dest: 0x8040_1000, len: 2048 });
    assert_eq!(transfers[2], Transfer { source: None, dest: 0x8040_1800, len: 2048 });
    let text = loaded.user_mem_map.region(Role::Text).unwrap();
    assert_eq!((text.base, text.order), (0x8040_0000, Order::KB4));
}

#[test]
fn loader_flash_enters_at_function_and_returns_to_exit() {
    let (loaded, transfers) = load_user_image(Image::Flash(0x2000_0100), &linked(), &layout(), 0x2000_0400).unwrap();
    assert_eq!(loaded.entry, 0x2000_0100);
    assert_eq!(loaded.entry_ra, 0x2000_0400);
    assert_eq!(transfers.len(), 3);
    let bss = loaded.user_mem_map.region(Role::Bss).unwrap();
    assert_eq!((bss.base, bss.order), (0x8040_1800, Order::KB2));
}

#[test]
fn loader_programs_find_first_by_name() {
    let programs = Programs(vec![
        Program { name: "echo", image: Image::Flash(1) },
        Program { name: "spin", image: Image::Flash(2) },
        Program { name: "echo", image: Image::Flash(3) },
    ]);
    assert!(matches!(programs.find("echo"), Some(Image::Flash(1))));
    assert!(matches!(programs.find("spin"), Some(Image::Flash(2))));
    assert!(programs.find("ech").is_none());
    assert!(programs.find("echoo").is_none());
    assert!(programs.find("").is_none());
}
