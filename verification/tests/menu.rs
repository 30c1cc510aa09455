use coav::menu::MenuLabels;

#[test]
fn japanese_is_the_table_for_ja() {
    let labels = MenuLabels::from_language("ja");
    assert_eq!(labels.file, "ファイル");
    assert_eq!(labels.shortcuts, "キーボードショートカット");
    assert_eq!(labels.about, MenuLabels::japanese().about);
}

#[test]
fn every_other_code_is_english() {
    for lang in ["en", "", "JA", "ja ", "jaa", "j", "fr"] {
        let labels = MenuLabels::from_language(lang);
        assert_eq!(labels.file, "File");
        assert_eq!(labels.generate_sample, "Generate Sample Data...");
        assert_eq!(labels.toggle_sidebar, MenuLabels::english().toggle_sidebar);
    }
}

fn describe(entry: &coav::menu::MenuEntry) -> String {
    match entry {
        coav::menu::MenuEntry::Item { id, label, accelerator } => {
            format!("{}|{}|{}", id, label, accelerator.unwrap_or("-"))
        }
        coav::menu::MenuEntry::Separator => "---".to_string(),
        coav::menu::MenuEntry::CloseWindow => "close".to_string(),
        coav::menu::MenuEntry::Fullscreen => "fullscreen".to_string(),
        coav::menu::MenuEntry::Minimize => "minimize".to_string(),
        coav::menu::MenuEntry::Maximize => "maximize".to_string(),
    }
}

#[test]
fn the_menu_bar_has_five_submenus() {
    let bar = coav::menu::menu_layout(&MenuLabels::english());
    let titles: Vec<&str> = bar.iter().map(|m| m.title).collect();
    assert_eq!(titles, ["File", "View", "Tools", "Window", "Help"]);
    let sizes: Vec<usize> = bar.iter().map(|m| m.entries.len()).collect();
    assert_eq!(sizes, [8, 10, 12, 4, 2]);
    let file: Vec<String> = bar[0].entries.iter().map(describe).collect();
    assert_eq!(
        file,
        [
            "open_image|Open Image|CmdOrCtrl+O",
            "open_annotations|Open Annotations|CmdOrCtrl+Shift+O",
            "---",
            "generate_sample|Generate Sample Data...|CmdOrCtrl+G",
            "---",
            "export_annotations|Export Annotations...|CmdOrCtrl+S",
            "---",
            "close",
        ]
    );
    let window: Vec<String> = bar[3].entries.iter().map(describe).collect();
    assert_eq!(window, ["minimize", "maximize", "---", "toggle_sidebar|Toggle Sidebar|CmdOrCtrl+\\"]);
    let help: Vec<String> = bar[4].entries.iter().map(describe).collect();
    assert_eq!(help, ["about|About COAV|-", "shortcuts|Keyboard Shortcuts|CmdOrCtrl+/"]);
}

#[test]
fn the_menu_keeps_its_ids_in_every_language() {
    let english = coav::menu::menu_layout(&MenuLabels::english());
    let japanese = coav::menu::menu_layout(&MenuLabels::japanese());
    assert_eq!(japanese[1].title, "表示");
    for (e, j) in english.iter().zip(&japanese) {
        assert_eq!(e.entries.len(), j.entries.len());
        for (a, b) in e.entries.iter().zip(&j.entries) {
            let (a, b) = (describe(a), describe(b));
            assert_eq!(a.split('|').next(), b.split('|').next());
            assert_eq!(a.split('|').last(), b.split('|').last());
        }
    }
    let view: Vec<String> = japanese[1].entries.iter().map(describe).collect();
    assert_eq!(view[2], "zoom_fit|ウィンドウに合わせる|CmdOrCtrl+0");
    assert_eq!(view[7], "toggle_bbox|バウンディングボックスの表示/非表示|CmdOrCtrl+B");
    assert_eq!(view[9], "fullscreen");
}
