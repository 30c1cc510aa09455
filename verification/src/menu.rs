//! The labels of the application menu in the languages it is offered in.

use vstd::prelude::*;

verus! {

/// The label of every submenu and menu item in one language.
#[derive(Debug)]
pub struct MenuLabels {
    // Submenu titles
    pub file: &'static str,
    pub view: &'static str,
    pub tools: &'static str,
    pub window: &'static str,
    pub help: &'static str,
    // File menu
    pub open_image: &'static str,
    pub open_annotations: &'static str,
    pub generate_sample: &'static str,
    pub export_annotations: &'static str,
    // View menu
    pub zoom_in: &'static str,
    pub zoom_out: &'static str,
    pub fit_to_window: &'static str,
    pub actual_size: &'static str,
    pub toggle_annotations: &'static str,
    pub toggle_labels: &'static str,
    pub toggle_bounding_boxes: &'static str,
    // Tools menu
    pub compare: &'static str,
    pub statistics: &'static str,
    pub histogram: &'static str,
    pub heatmap: &'static str,
    pub settings: &'static str,
    pub show_all_categories: &'static str,
    pub hide_all_categories: &'static str,
    pub clear_data: &'static str,
    // Window menu
    pub toggle_sidebar: &'static str,
    // Help menu
    pub about: &'static str,
    pub shortcuts: &'static str,
}

/// The value of a set of labels.
pub struct MenuLabelsView {
    pub file: Seq<char>,
    pub view: Seq<char>,
    pub tools: Seq<char>,
    pub window: Seq<char>,
    pub help: Seq<char>,
    pub open_image: Seq<char>,
    pub open_annotations: Seq<char>,
    pub generate_sample: Seq<char>,
    pub export_annotations: Seq<char>,
    pub zoom_in: Seq<char>,
    pub zoom_out: Seq<char>,
    pub fit_to_window: Seq<char>,
    pub actual_size: Seq<char>,
    pub toggle_annotations: Seq<char>,
    pub toggle_labels: Seq<char>,
    pub toggle_bounding_boxes: Seq<char>,
    pub compare: Seq<char>,
    pub statistics: Seq<char>,
    pub histogram: Seq<char>,
    pub heatmap: Seq<char>,
    pub settings: Seq<char>,
    pub show_all_categories: Seq<char>,
    pub hide_all_categories: Seq<char>,
    pub clear_data: Seq<char>,
    pub toggle_sidebar: Seq<char>,
    pub about: Seq<char>,
    pub shortcuts: Seq<char>,
}

impl View for MenuLabels {
    type V = MenuLabelsView;

    open spec fn view(&self) -> MenuLabelsView {
        MenuLabelsView {
            file: self.file@,
            view: self.view@,
            tools: self.tools@,
            window: self.window@,
            help: self.help@,
            open_image: self.open_image@,
            open_annotations: self.open_annotations@,
            generate_sample: self.generate_sample@,
            export_annotations: self.export_annotations@,
            zoom_in: self.zoom_in@,
            zoom_out: self.zoom_out@,
            fit_to_window: self.fit_to_window@,
            actual_size: self.actual_size@,
            toggle_annotations: self.toggle_annotations@,
            toggle_labels: self.toggle_labels@,
            toggle_bounding_boxes: self.toggle_bounding_boxes@,
            compare: self.compare@,
            statistics: self.statistics@,
            histogram: self.histogram@,
            heatmap: self.heatmap@,
            settings: self.settings@,
            show_all_categories: self.show_all_categories@,
            hide_all_categories: self.hide_all_categories@,
            clear_data: self.clear_data@,
            toggle_sidebar: self.toggle_sidebar@,
            about: self.about@,
            shortcuts: self.shortcuts@,
        }
    }
}

/// The Japanese labels.
pub open spec fn japanese_labels() -> MenuLabelsView {
    MenuLabelsView {
        file: "ファイル"@,
        view: "表示"@,
        tools: "ツール"@,
        window: "ウィンドウ"@,
        help: "ヘルプ"@,
        open_image: "画像を開く"@,
        open_annotations: "アノテーションを開く"@,
        generate_sample: "サンプルデータを生成..."@,
        export_annotations: "アノテーションをエクスポート..."@,
        zoom_in: "拡大"@,
        zoom_out: "縮小"@,
        fit_to_window: "ウィンドウに合わせる"@,
        actual_size: "原寸大"@,
        toggle_annotations: "アノテーションの表示/非表示"@,
        toggle_labels: "ラベルの表示/非表示"@,
        toggle_bounding_boxes: "バウンディングボックスの表示/非表示"@,
        compare: "アノテーションを比較..."@,
        statistics: "統計情報..."@,
        histogram: "分布ヒストグラム..."@,
        heatmap: "2Dヒートマップ..."@,
        settings: "設定..."@,
        show_all_categories: "すべてのカテゴリを表示"@,
        hide_all_categories: "すべてのカテゴリを非表示"@,
        clear_data: "データをクリア"@,
        toggle_sidebar: "サイドバーを切り替え"@,
        about: "COAVについて"@,
        shortcuts: "キーボードショートカット"@,
    }
}

/// The English labels.
pub open spec fn english_labels() -> MenuLabelsView {
    MenuLabelsView {
        file: "File"@,
        view: "View"@,
        tools: "Tools"@,
        window: "Window"@,
        help: "Help"@,
        open_image: "Open Image"@,
        open_annotations: "Open Annotations"@,
        generate_sample: "Generate Sample Data..."@,
        export_annotations: "Export Annotations..."@,
        zoom_in: "Zoom In"@,
        zoom_out: "Zoom Out"@,
        fit_to_window: "Fit to Window"@,
        actual_size: "Actual Size"@,
        toggle_annotations: "Toggle Annotations"@,
        toggle_labels: "Toggle Labels"@,
        toggle_bounding_boxes: "Toggle Bounding Boxes"@,
        compare: "Compare Annotations..."@,
        statistics: "Statistics..."@,
        histogram: "Distribution Histogram..."@,
        heatmap: "2D Heatmap..."@,
        settings: "Settings..."@,
        show_all_categories: "Show All Categories"@,
        hide_all_categories: "Hide All Categories"@,
        clear_data: "Clear Data"@,
        toggle_sidebar: "Toggle Sidebar"@,
        about: "About COAV"@,
        shortcuts: "Keyboard Shortcuts"@,
    }
}

/// The labels for a language code: Japanese for "ja", English for every
/// other code.
pub open spec fn labels_for(lang: Seq<char>) -> MenuLabelsView {
    if lang == "ja"@ {
        japanese_labels()
    } else {
        english_labels()
    }
}

impl MenuLabels {
    /// The Japanese labels.
    pub fn japanese() -> (labels: Self)
        ensures
            labels@ == japanese_labels(),
    {
        Self {
            file: "ファイル",
            view: "表示",
            tools: "ツール",
            window: "ウィンドウ",
            help: "ヘルプ",
            open_image: "画像を開く",
            open_annotations: "アノテーションを開く",
            generate_sample: "サンプルデータを生成...",
            export_annotations: "アノテーションをエクスポート...",
            zoom_in: "拡大",
            zoom_out: "縮小",
            fit_to_window: "ウィンドウに合わせる",
            actual_size: "原寸大",
            toggle_annotations: "アノテーションの表示/非表示",
            toggle_labels: "ラベルの表示/非表示",
            toggle_bounding_boxes: "バウンディングボックスの表示/非表示",
            compare: "アノテーションを比較...",
            statistics: "統計情報...",
            histogram: "分布ヒストグラム...",
            heatmap: "2Dヒートマップ...",
            settings: "設定...",
            show_all_categories: "すべてのカテゴリを表示",
            hide_all_categories: "すべてのカテゴリを非表示",
            clear_data: "データをクリア",
            toggle_sidebar: "サイドバーを切り替え",
            about: "COAVについて",
            shortcuts: "キーボードショートカット",
        }
    }

    /// The English labels.
    pub fn english() -> (labels: Self)
        ensures
            labels@ == english_labels(),
    {
        Self {
            file: "File",
            view: "View",
            tools: "Tools",
            window: "Window",
            help: "Help",
            open_image: "Open Image",
            open_annotations: "Open Annotations",
            generate_sample: "Generate Sample Data...",
            export_annotations: "Export Annotations...",
            zoom_in: "Zoom In",
            zoom_out: "Zoom Out",
            fit_to_window: "Fit to Window",
            actual_size: "Actual Size",
            toggle_annotations: "Toggle Annotations",
            toggle_labels: "Toggle Labels",
            toggle_bounding_boxes: "Toggle Bounding Boxes",
            compare: "Compare Annotations...",
            statistics: "Statistics...",
            histogram: "Distribution Histogram...",
            heatmap: "2D Heatmap...",
            settings: "Settings...",
            show_all_categories: "Show All Categories",
            hide_all_categories: "Hide All Categories",
            clear_data: "Clear Data",
            toggle_sidebar: "Toggle Sidebar",
            about: "About COAV",
            shortcuts: "Keyboard Shortcuts",
        }
    }

    /// The labels for a language code: Japanese for "ja", English for
    /// every other code.
    pub fn from_language(lang: &str) -> (labels: Self)
        ensures
            labels@ == labels_for(lang@),
    {
        proof {
            reveal_strlit("ja");
        }
        if lang.unicode_len() == 2 && lang.get_char(0) == 'j' && lang.get_char(1) == 'a' {
            assert(lang@ =~= "ja"@);
            Self::japanese()
        } else {
            Self::english()
        }
    }
}

/// One entry of a submenu.
#[derive(Debug)]
pub enum MenuEntry {
    /// An item that reports its id when chosen, with its label and its
    /// keyboard shortcut, if it has one.
    Item { id: &'static str, label: &'static str, accelerator: Option<&'static str> },
    /// A dividing line.
    Separator,
    /// The item of the platform that closes the window.
    CloseWindow,
    /// The item of the platform that toggles full screen.
    Fullscreen,
    /// The item of the platform that minimises the window.
    Minimize,
    /// The item of the platform that maximises the window.
    Maximize,
}

/// The value of a menu entry.
pub enum MenuEntryView {
    Item { id: Seq<char>, label: Seq<char>, accelerator: Option<Seq<char>> },
    Separator,
    CloseWindow,
    Fullscreen,
    Minimize,
    Maximize,
}

impl View for MenuEntry {
    type V = MenuEntryView;

    open spec fn view(&self) -> MenuEntryView {
        match self {
            MenuEntry::Item { id, label, accelerator } => MenuEntryView::Item {
                id: id@,
                label: label@,
                accelerator: match accelerator {
                    Some(a) => Some(a@),
                    None => None,
                },
            },
            MenuEntry::Separator => MenuEntryView::Separator,
            MenuEntry::CloseWindow => MenuEntryView::CloseWindow,
            MenuEntry::Fullscreen => MenuEntryView::Fullscreen,
            MenuEntry::Minimize => MenuEntryView::Minimize,
            MenuEntry::Maximize => MenuEntryView::Maximize,
        }
    }
}

/// A submenu: its title and its entries from top to bottom.
#[derive(Debug)]
pub struct Submenu {
    pub title: &'static str,
    pub entries: Vec<MenuEntry>,
}

/// The value of a submenu.
pub struct SubmenuView {
    pub title: Seq<char>,
    pub entries: Seq<MenuEntryView>,
}

impl View for Submenu {
    type V = SubmenuView;

    open spec fn view(&self) -> SubmenuView {
        SubmenuView {
            title: self.title@,
            entries: Seq::new(self.entries@.len(), |i: int| self.entries@[i]@),
        }
    }
}

/// The File menu: opening, generating and exporting.
pub open spec fn file_menu_entries(labels: MenuLabelsView) -> Seq<MenuEntryView> {
    seq![
        MenuEntryView::Item {
            id: "open_image"@,
            label: labels.open_image,
            accelerator: Some("CmdOrCtrl+O"@),
        },
        MenuEntryView::Item {
            id: "open_annotations"@,
            label: labels.open_annotations,
            accelerator: Some("CmdOrCtrl+Shift+O"@),
        },
        MenuEntryView::Separator,
        MenuEntryView::Item {
            id: "generate_sample"@,
            label: labels.generate_sample,
            accelerator: Some("CmdOrCtrl+G"@),
        },
        MenuEntryView::Separator,
        MenuEntryView::Item {
            id: "export_annotations"@,
            label: labels.export_annotations,
            accelerator: Some("CmdOrCtrl+S"@),
        },
        MenuEntryView::Separator,
        MenuEntryView::CloseWindow,
    ]
}

/// The File menu: opening, generating and exporting.
pub fn file_menu(labels: &MenuLabels) -> (menu: Submenu)
    ensures
        menu@.title == labels@.file,
        menu@.entries == file_menu_entries(labels@),
{
    let mut entries: Vec<MenuEntry> = Vec::new();
    entries.push(
        MenuEntry::Item {
            id: "open_image",
            label: labels.open_image,
            accelerator: Some("CmdOrCtrl+O"),
        },
    );
    entries.push(
        MenuEntry::Item {
            id: "open_annotations",
            label: labels.open_annotations,
            accelerator: Some("CmdOrCtrl+Shift+O"),
        },
    );
    entries.push(MenuEntry::Separator);
    entries.push(
        MenuEntry::Item {
            id: "generate_sample",
            label: labels.generate_sample,
            accelerator: Some("CmdOrCtrl+G"),
        },
    );
    entries.push(MenuEntry::Separator);
    entries.push(
        MenuEntry::Item {
            id: "export_annotations",
            label: labels.export_annotations,
            accelerator: Some("CmdOrCtrl+S"),
        },
    );
    entries.push(MenuEntry::Separator);
    entries.push(MenuEntry::CloseWindow);
    let menu = Submenu { title: labels.file, entries };
    assert(menu@.entries =~= file_menu_entries(labels@));
    menu
}

/// The View menu: zoom and what is shown.
pub open spec fn view_menu_entries(labels: MenuLabelsView) -> Seq<MenuEntryView> {
    seq![
        MenuEntryView::Item {
            id: "zoom_in"@,
            label: labels.zoom_in,
            accelerator: Some("CmdOrCtrl+Plus"@),
        },
        MenuEntryView::Item {
            id: "zoom_out"@,
            label: labels.zoom_out,
            accelerator: Some("CmdOrCtrl+Minus"@),
        },
        MenuEntryView::Item {
            id: "zoom_fit"@,
            label: labels.fit_to_window,
            accelerator: Some("CmdOrCtrl+0"@),
        },
        MenuEntryView::Item {
            id: "zoom_100"@,
            label: labels.actual_size,
            accelerator: Some("CmdOrCtrl+1"@),
        },
        MenuEntryView::Separator,
        MenuEntryView::Item {
            id: "toggle_annotations"@,
            label: labels.toggle_annotations,
            accelerator: Some("CmdOrCtrl+H"@),
        },
        MenuEntryView::Item {
            id: "toggle_labels"@,
            label: labels.toggle_labels,
            accelerator: Some("CmdOrCtrl+L"@),
        },
        MenuEntryView::Item {
            id: "toggle_bbox"@,
            label: labels.toggle_bounding_boxes,
            accelerator: Some("CmdOrCtrl+B"@),
        },
        MenuEntryView::Separator,
        MenuEntryView::Fullscreen,
    ]
}

/// The View menu: zoom and what is shown.
pub fn view_menu(labels: &MenuLabels) -> (menu: Submenu)
    ensures
        menu@.title == labels@.view,
        menu@.entries == view_menu_entries(labels@),
{
    let mut entries: Vec<MenuEntry> = Vec::new();
    entries.push(
        MenuEntry::Item {
            id: "zoom_in",
            label: labels.zoom_in,
            accelerator: Some("CmdOrCtrl+Plus"),
        },
    );
    entries.push(
        MenuEntry::Item {
            id: "zoom_out",
            label: labels.zoom_out,
            accelerator: Some("CmdOrCtrl+Minus"),
        },
    );
    entries.push(
        MenuEntry::Item {
            id: "zoom_fit",
            label: labels.fit_to_window,
            accelerator: Some("CmdOrCtrl+0"),
        },
    );
    entries.push(
        MenuEntry::Item {
            id: "zoom_100",
            label: labels.actual_size,
            accelerator: Some("CmdOrCtrl+1"),
        },
    );
    entries.push(MenuEntry::Separator);
    entries.push(
        MenuEntry::Item {
            id: "toggle_annotations",
            label: labels.toggle_annotations,
            accelerator: Some("CmdOrCtrl+H"),
        },
    );
    entries.push(
        MenuEntry::Item {
            id: "toggle_labels",
            label: labels.toggle_labels,
            accelerator: Some("CmdOrCtrl+L"),
        },
    );
    entries.push(
        MenuEntry::Item {
            id: "toggle_bbox",
            label: labels.toggle_bounding_boxes,
            accelerator: Some("CmdOrCtrl+B"),
        },
    );
    entries.push(MenuEntry::Separator);
    entries.push(MenuEntry::Fullscreen);
    let menu = Submenu { title: labels.view, entries };
    assert(menu@.entries =~= view_menu_entries(labels@));
    menu
}

/// The Tools menu: comparison, statistics and settings.
pub open spec fn tools_menu_entries(labels: MenuLabelsView) -> Seq<MenuEntryView> {
    seq![
        MenuEntryView::Item {
            id: "compare"@,
            label: labels.compare,
            accelerator: Some("CmdOrCtrl+D"@),
        },
        MenuEntryView::Separator,
        MenuEntryView::Item {
            id: "statistics"@,
            label: labels.statistics,
            accelerator: Some("CmdOrCtrl+I"@),
        },
        MenuEntryView::Item {
            id: "histogram"@,
            label: labels.histogram,
            accelerator: Some("CmdOrCtrl+Shift+H"@),
        },
        MenuEntryView::Item {
            id: "heatmap"@,
            label: labels.heatmap,
            accelerator: Some("CmdOrCtrl+Shift+M"@),
        },
        MenuEntryView::Separator,
        MenuEntryView::Item {
            id: "settings"@,
            label: labels.settings,
            accelerator: Some("CmdOrCtrl+,"@),
        },
        MenuEntryView::Separator,
        MenuEntryView::Item {
            id: "show_all_categories"@,
            label: labels.show_all_categories,
            accelerator: None,
        },
        MenuEntryView::Item {
            id: "hide_all_categories"@,
            label: labels.hide_all_categories,
            accelerator: None,
        },
        MenuEntryView::Separator,
        MenuEntryView::Item { id: "clear_data"@, label: labels.clear_data, accelerator: None },
    ]
}

/// The Tools menu: comparison, statistics and settings.
pub fn tools_menu(labels: &MenuLabels) -> (menu: Submenu)
    ensures
        menu@.title == labels@.tools,
        menu@.entries == tools_menu_entries(labels@),
{
    let mut entries: Vec<MenuEntry> = Vec::new();
    entries.push(
        MenuEntry::Item {
            id: "compare",
            label: labels.compare,
            accelerator: Some("CmdOrCtrl+D"),
        },
    );
    entries.push(MenuEntry::Separator);
    entries.push(
        MenuEntry::Item {
            id: "statistics",
            label: labels.statistics,
            accelerator: Some("CmdOrCtrl+I"),
        },
    );
    entries.push(
        MenuEntry::Item {
            id: "histogram",
            label: labels.histogram,
            accelerator: Some("CmdOrCtrl+Shift+H"),
        },
    );
    entries.push(
        MenuEntry::Item {
            id: "heatmap",
            label: labels.heatmap,
            accelerator: Some("CmdOrCtrl+Shift+M"),
        },
    );
    entries.push(MenuEntry::Separator);
    entries.push(
        MenuEntry::Item {
            id: "settings",
            label: labels.settings,
            accelerator: Some("CmdOrCtrl+,"),
        },
    );
    entries.push(MenuEntry::Separator);
    entries.push(
        MenuEntry::Item {
            id: "show_all_categories",
            label: labels.show_all_categories,
            accelerator: None,
        },
    );
    entries.push(
        MenuEntry::Item {
            id: "hide_all_categories",
            label: labels.hide_all_categories,
            accelerator: None,
        },
    );
    entries.push(MenuEntry::Separator);
    entries.push(MenuEntry::Item { id: "clear_data", label: labels.clear_data, accelerator: None });
    let menu = Submenu { title: labels.tools, entries };
    assert(menu@.entries =~= tools_menu_entries(labels@));
    menu
}

/// The Window menu.
pub open spec fn window_menu_entries(labels: MenuLabelsView) -> Seq<MenuEntryView> {
    seq![
        MenuEntryView::Minimize,
        MenuEntryView::Maximize,
        MenuEntryView::Separator,
        MenuEntryView::Item {
            id: "toggle_sidebar"@,
            label: labels.toggle_sidebar,
            accelerator: Some("CmdOrCtrl+\\"@),
        },
    ]
}

/// The Window menu.
pub fn window_menu(labels: &MenuLabels) -> (menu: Submenu)
    ensures
        menu@.title == labels@.window,
        menu@.entries == window_menu_entries(labels@),
{
    let mut entries: Vec<MenuEntry> = Vec::new();
    entries.push(MenuEntry::Minimize);
    entries.push(MenuEntry::Maximize);
    entries.push(MenuEntry::Separator);
    entries.push(
        MenuEntry::Item {
            id: "toggle_sidebar",
            label: labels.toggle_sidebar,
            accelerator: Some("CmdOrCtrl+\\"),
        },
    );
    let menu = Submenu { title: labels.window, entries };
    assert(menu@.entries =~= window_menu_entries(labels@));
    menu
}

/// The Help menu.
pub open spec fn help_menu_entries(labels: MenuLabelsView) -> Seq<MenuEntryView> {
    seq![
        MenuEntryView::Item { id: "about"@, label: labels.about, accelerator: None },
        MenuEntryView::Item {
            id: "shortcuts"@,
            label: labels.shortcuts,
            accelerator: Some("CmdOrCtrl+/"@),
        },
    ]
}

/// The Help menu.
pub fn help_menu(labels: &MenuLabels) -> (menu: Submenu)
    ensures
        menu@.title == labels@.help,
        menu@.entries == help_menu_entries(labels@),
{
    let mut entries: Vec<MenuEntry> = Vec::new();
    entries.push(MenuEntry::Item { id: "about", label: labels.about, accelerator: None });
    entries.push(
        MenuEntry::Item {
            id: "shortcuts",
            label: labels.shortcuts,
            accelerator: Some("CmdOrCtrl+/"),
        },
    );
    let menu = Submenu { title: labels.help, entries };
    assert(menu@.entries =~= help_menu_entries(labels@));
    menu
}

/// The menu bar: File, View, Tools, Window and Help, in this order.
pub fn menu_layout(labels: &MenuLabels) -> (bar: Vec<Submenu>)
    ensures
        bar@.len() == 5,
        bar@[0]@.title == labels@.file && bar@[0]@.entries == file_menu_entries(labels@),
        bar@[1]@.title == labels@.view && bar@[1]@.entries == view_menu_entries(labels@),
        bar@[2]@.title == labels@.tools && bar@[2]@.entries == tools_menu_entries(labels@),
        bar@[3]@.title == labels@.window && bar@[3]@.entries == window_menu_entries(labels@),
        bar@[4]@.title == labels@.help && bar@[4]@.entries == help_menu_entries(labels@),
{
    let mut bar: Vec<Submenu> = Vec::new();
    bar.push(file_menu(labels));
    bar.push(view_menu(labels));
    bar.push(tools_menu(labels));
    bar.push(window_menu(labels));
    bar.push(help_menu(labels));
    bar
}

} // verus!
