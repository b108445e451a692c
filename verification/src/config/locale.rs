use vstd::prelude::*;
use crate::text::str_eq;

verus! {

/// The interface strings of one language, looked up by key. Entries added
/// later take the place of earlier ones with the same key.
#[derive(Debug, Clone)]
pub struct LocaleConfig {
    pub lang: String,
    pub entries: Vec<(String, String)>,
}

pub open spec fn entries_view(v: Seq<(String, String)>) -> Seq<(Seq<char>, Seq<char>)> {
    v.map_values(|e: (String, String)| (e.0@, e.1@))
}

/// The value of the last entry with key `key`, if any.
pub open spec fn lookup(entries: Seq<(Seq<char>, Seq<char>)>, key: Seq<char>) -> Option<Seq<char>>
    decreases entries.len(),
{
    if entries.len() == 0 {
        None
    } else if entries.last().0 == key {
        Some(entries.last().1)
    } else {
        lookup(entries.drop_last(), key)
    }
}

/// The built-in English strings.
pub open spec fn en_entries() -> Seq<(Seq<char>, Seq<char>)> {
    seq![
        ("title_map"@, " Map "@),
        ("title_log"@, " Log "@),
        ("title_stats"@, " Character "@),
        ("title_equipment"@, " Equipment "@),
        ("title_inventory"@, " Inventory "@),
        ("title_spells"@, " Spells "@),
        ("title_help"@, " Help (?) "@),
        ("title_settings"@, " Settings (F10) "@),
        ("hint_playing_sp"@, "   WASD:move  F:attack  1-5:spell  U:use  G:equip  P:pickup  ?:help  Esc:menu"@),
        ("hint_playing_mp"@, "   Enter:chat   WASD:move  F:attack  U:use  G:equip  ?:help  Esc:quit"@),
        ("hint_inv"@, "J/K: nav  U: use  G: equip  X: drop"@),
        ("hint_inv_empty"@, "(empty)"@),
        ("hint_windows"@, "m:Map l:Log c:Stats i:Inv n:Spells ?:Help F10:Settings Ctrl+R:reset"@),
        ("badge_solo"@, " SOLO"@),
        ("badge_online"@, " ONLINE"@),
        ("badge_sp_map"@, " SOLO"@),
        ("log_welcome_sp"@, "Welcome to Voidlands! [SINGLEPLAYER]"@),
        ("log_welcome_mp"@, "Welcome to Voidlands!"@),
        ("log_controls_sp"@, "WASD:move  F:attack  U:use  G:equip  P:pickup  J/K:inv  ?:help  Esc:menu"@),
        ("log_controls_mp"@, "WASD:move  F:attack  U:use  G:equip  P:pickup  J/K:inv  Enter:chat  Esc:quit"@),
        ("settings_lang_label"@, "Language:"@),
        ("settings_lang_val"@, "English (en)"@),
        ("settings_lang_hint"@, "Tab/Enter: switch language"@),
        ("settings_3d_label"@, "Default view:"@),
        ("settings_3d_on"@, "3D First-Person"@),
        ("settings_3d_off"@, "2D Top-Down"@),
        ("help_content"@, "=== VOIDQUEST — HELP ===\n\n── MOVEMENT ──────────────────────────\n  WASD / Arrow keys : move / walk\n  Q / E             : diagonal move\n  Z                 : diagonal move (down-left)\n  (in 3D) A/D       : turn left/right\n  (in 3D) Q/E       : strafe left/right\n  Mouse             : look around (3D mode)\n\n── COMBAT ────────────────────────────\n  F                 : attack nearest monster\n  1-5               : cast spell (singleplayer)\n\n── ITEMS ─────────────────────────────\n  J / PageDown      : next inventory slot\n  K / PageUp        : previous inventory slot\n  U                 : use selected item\n  G                 : equip selected item\n  X                 : drop selected item\n  P                 : pick up nearby items\n\n── VIEW ──────────────────────────────\n  F3                : toggle 3D / 2D view\n  PageUp/PageDown   : look up/down (3D)\n  R                 : level horizon (3D)\n  Mouse Y           : pitch (3D)\n\n── WINDOWS ───────────────────────────\n  M                 : toggle Map\n  L                 : toggle Log\n  C                 : toggle Stats\n  I                 : toggle Inventory\n  N                 : toggle Spells\n  ?                 : toggle Help\n  F10               : toggle Settings\n  Ctrl+R            : reset window layout\n  Drag title bar    : move window\n  Drag corner [\\]   : resize window\n\n── WORLD ─────────────────────────────\n  Global Map        : navigate between zones\n  Arrow keys        : move cursor on world map\n  Enter             : enter selected zone\n  Esc (in zone)     : return to world map\n\n── MULTIPLAYER ───────────────────────\n  Enter             : open chat\n  Esc               : disconnect and quit\n\n── ABOUT ─────────────────────────────\n  VoidQuest — terminal roguelike RPG\n  Explore procedurally generated zones,\n  fight monsters, collect loot, level up.\n  Each zone has unique terrain and enemies."@),
        ("global_map_title"@, "=== VOIDLANDS WORLD MAP ==="@),
        ("global_map_hint"@, "Arrows:move  Enter:enter zone  Esc:main menu"@),
        ("global_map_unvisited"@, "(unexplored)"@),
    ]
}

/// The built-in Russian strings.
pub open spec fn ru_entries() -> Seq<(Seq<char>, Seq<char>)> {
    seq![
        ("title_map"@, " Карта "@),
        ("title_log"@, " Журнал "@),
        ("title_stats"@, " Персонаж "@),
        ("title_equipment"@, " Снаряжение "@),
        ("title_inventory"@, " Инвентарь "@),
        ("title_spells"@, " Заклинания "@),
        ("title_help"@, " Справка (?) "@),
        ("title_settings"@, " Настройки (F10) "@),
        ("hint_playing_sp"@, "   WASD:движение  F:атака  1-5:заклинание  U:использовать  G:надеть  ?:справка  Esc:меню"@),
        ("hint_playing_mp"@, "   Enter:чат   WASD:движение  F:атака  U:использ  G:надеть  ?:справка  Esc:выйти"@),
        ("hint_inv"@, "J/K:выбор  U:использ  G:надеть  X:выбросить"@),
        ("hint_inv_empty"@, "(пусто)"@),
        ("hint_windows"@, "m:Карта l:Журнал c:Стат i:Инв n:Заклинания ?:Справка F10:Настройки Ctrl+R:сброс"@),
        ("badge_solo"@, " СОЛО"@),
        ("badge_online"@, " ОНЛАЙН"@),
        ("badge_sp_map"@, " СОЛО"@),
        ("log_welcome_sp"@, "Добро пожаловать в Войдлэнд! [ОДИНОЧНАЯ]"@),
        ("log_welcome_mp"@, "Добро пожаловать в Войдлэнд!"@),
        ("log_controls_sp"@, "WASD:движение  F:атака  U:использ  G:надеть  P:подобрать  J/K:инв  ?:справка  Esc:меню"@),
        ("log_controls_mp"@, "WASD:движение  F:атака  U:использ  G:надеть  P:подобрать  J/K:инв  Enter:чат  Esc:выйти"@),
        ("settings_lang_label"@, "Язык:"@),
        ("settings_lang_val"@, "Русский (ru)"@),
        ("settings_lang_hint"@, "Tab/Enter: переключить язык"@),
        ("settings_3d_label"@, "Вид по умолчанию:"@),
        ("settings_3d_on"@, "3D Вид от первого лица"@),
        ("settings_3d_off"@, "2D Вид сверху"@),
        ("help_content"@, "=== VOIDQUEST — СПРАВКА ===\n\n── ДВИЖЕНИЕ ──────────────────────────\n  WASD / стрелки  : перемещение\n  Q / E           : по диагонали\n  Z               : по диагонали (вниз-влево)\n  (3D) A/D        : поворот влево/вправо\n  (3D) Q/E        : страфить влево/вправо\n  Мышь            : осмотреться (режим 3D)\n\n── БОЙ ───────────────────────────────\n  F               : атаковать ближайшего монстра\n  1-5             : заклинание (одиночная игра)\n\n── ПРЕДМЕТЫ ──────────────────────────\n  J / PageDown    : следующий слот инвентаря\n  K / PageUp      : предыдущий слот\n  U               : использовать предмет\n  G               : надеть предмет\n  X               : выбросить предмет\n  P               : подобрать предметы рядом\n\n── ВИД ───────────────────────────────\n  F3              : переключить 3D / 2D вид\n  PageUp/PageDown : смотреть вверх/вниз (3D)\n  R               : выровнять горизонт (3D)\n  Мышь по Y       : наклон камеры (3D)\n\n── ОКНА ──────────────────────────────\n  M               : переключить Карту\n  L               : переключить Журнал\n  C               : переключить Статы\n  I               : переключить Инвентарь\n  N               : переключить Заклинания\n  ?               : переключить Справку\n  F10             : переключить Настройки\n  Ctrl+R          : сбросить расположение окон\n  Тянуть заголовок: переместить окно\n  Тянуть угол [\\] : изменить размер\n\n── МИР ───────────────────────────────\n  Глобальная карта: перемещение между зонами\n  Стрелки         : курсор на карте мира\n  Enter           : войти в выбранную зону\n  Esc (в зоне)    : вернуться на карту мира\n\n── МУЛЬТИПЛЕЕР ───────────────────────\n  Enter           : открыть чат\n  Esc             : отключиться и выйти\n\n── ОБ ИГРЕ ───────────────────────────\n  VoidQuest — терминальный roguelike RPG\n  Исследуй процедурно генерируемые зоны,\n  сражайся с монстрами, собирай лут, расти."@),
        ("global_map_title"@, "=== КАРТА МИРА ВОЙДЛЭНД ==="@),
        ("global_map_hint"@, "Стрелки:курсор  Enter:войти в зону  Esc:главное меню"@),
        ("global_map_unvisited"@, "(не исследована)"@),
    ]
}

fn push_entry(entries: &mut Vec<(String, String)>, k: &str, v: &str)
    ensures
        entries_view(final(entries)@) == entries_view(old(entries)@).push((k@, v@)),
{
    let ghost before = entries@;
    entries.push((String::from_str(k), String::from_str(v)));
    assert(entries_view(entries@) =~= entries_view(before).push((k@, v@)));
}

impl LocaleConfig {
    pub open spec fn entries(self) -> Seq<(Seq<char>, Seq<char>)> {
        entries_view(self.entries@)
    }

    /// The string for `key` in this configuration, if it has one.
    pub open spec fn spec_get(self, key: Seq<char>) -> Option<Seq<char>> {
        lookup(self.entries(), key)
    }

    /// The built-in English strings, language "en".
    #[verifier::rlimit(50)]
    pub fn default_en() -> (r: Self)
        ensures
            r.lang@ == "en"@,
            r.entries() == en_entries(),
    {
        let mut entries: Vec<(String, String)> = Vec::new();
        push_entry(&mut entries, "title_map", " Map ");
        push_entry(&mut entries, "title_log", " Log ");
        push_entry(&mut entries, "title_stats", " Character ");
        push_entry(&mut entries, "title_equipment", " Equipment ");
        push_entry(&mut entries, "title_inventory", " Inventory ");
        push_entry(&mut entries, "title_spells", " Spells ");
        push_entry(&mut entries, "title_help", " Help (?) ");
        push_entry(&mut entries, "title_settings", " Settings (F10) ");
        push_entry(&mut entries, "hint_playing_sp", "   WASD:move  F:attack  1-5:spell  U:use  G:equip  P:pickup  ?:help  Esc:menu");
        push_entry(&mut entries, "hint_playing_mp", "   Enter:chat   WASD:move  F:attack  U:use  G:equip  ?:help  Esc:quit");
        push_entry(&mut entries, "hint_inv", "J/K: nav  U: use  G: equip  X: drop");
        push_entry(&mut entries, "hint_inv_empty", "(empty)");
        push_entry(&mut entries, "hint_windows", "m:Map l:Log c:Stats i:Inv n:Spells ?:Help F10:Settings Ctrl+R:reset");
        push_entry(&mut entries, "badge_solo", " SOLO");
        push_entry(&mut entries, "badge_online", " ONLINE");
        push_entry(&mut entries, "badge_sp_map", " SOLO");
        push_entry(&mut entries, "log_welcome_sp", "Welcome to Voidlands! [SINGLEPLAYER]");
        push_entry(&mut entries, "log_welcome_mp", "Welcome to Voidlands!");
        push_entry(&mut entries, "log_controls_sp", "WASD:move  F:attack  U:use  G:equip  P:pickup  J/K:inv  ?:help  Esc:menu");
        push_entry(&mut entries, "log_controls_mp", "WASD:move  F:attack  U:use  G:equip  P:pickup  J/K:inv  Enter:chat  Esc:quit");
        push_entry(&mut entries, "settings_lang_label", "Language:");
        push_entry(&mut entries, "settings_lang_val", "English (en)");
        push_entry(&mut entries, "settings_lang_hint", "Tab/Enter: switch language");
        push_entry(&mut entries, "settings_3d_label", "Default view:");
        push_entry(&mut entries, "settings_3d_on", "3D First-Person");
        push_entry(&mut entries, "settings_3d_off", "2D Top-Down");
        push_entry(&mut entries, "help_content", "=== VOIDQUEST — HELP ===\n\n── MOVEMENT ──────────────────────────\n  WASD / Arrow keys : move / walk\n  Q / E             : diagonal move\n  Z                 : diagonal move (down-left)\n  (in 3D) A/D       : turn left/right\n  (in 3D) Q/E       : strafe left/right\n  Mouse             : look around (3D mode)\n\n── COMBAT ────────────────────────────\n  F                 : attack nearest monster\n  1-5               : cast spell (singleplayer)\n\n── ITEMS ─────────────────────────────\n  J / PageDown      : next inventory slot\n  K / PageUp        : previous inventory slot\n  U                 : use selected item\n  G                 : equip selected item\n  X                 : drop selected item\n  P                 : pick up nearby items\n\n── VIEW ──────────────────────────────\n  F3                : toggle 3D / 2D view\n  PageUp/PageDown   : look up/down (3D)\n  R                 : level horizon (3D)\n  Mouse Y           : pitch (3D)\n\n── WINDOWS ───────────────────────────\n  M                 : toggle Map\n  L                 : toggle Log\n  C                 : toggle Stats\n  I                 : toggle Inventory\n  N                 : toggle Spells\n  ?                 : toggle Help\n  F10               : toggle Settings\n  Ctrl+R            : reset window layout\n  Drag title bar    : move window\n  Drag corner [\\]   : resize window\n\n── WORLD ─────────────────────────────\n  Global Map        : navigate between zones\n  Arrow keys        : move cursor on world map\n  Enter             : enter selected zone\n  Esc (in zone)     : return to world map\n\n── MULTIPLAYER ───────────────────────\n  Enter             : open chat\n  Esc               : disconnect and quit\n\n── ABOUT ─────────────────────────────\n  VoidQuest — terminal roguelike RPG\n  Explore procedurally generated zones,\n  fight monsters, collect loot, level up.\n  Each zone has unique terrain and enemies.");
        push_entry(&mut entries, "global_map_title", "=== VOIDLANDS WORLD MAP ===");
        push_entry(&mut entries, "global_map_hint", "Arrows:move  Enter:enter zone  Esc:main menu");
        push_entry(&mut entries, "global_map_unvisited", "(unexplored)");
        let r = LocaleConfig { lang: String::from_str("en"), entries };
        assert(r.entries() =~= en_entries());
        r
    }

    /// The built-in Russian strings, language "ru".
    #[verifier::rlimit(50)]
    pub fn default_ru() -> (r: Self)
        ensures
            r.lang@ == "ru"@,
            r.entries() == ru_entries(),
    {
        let mut entries: Vec<(String, String)> = Vec::new();
        push_entry(&mut entries, "title_map", " Карта ");
        push_entry(&mut entries, "title_log", " Журнал ");
        push_entry(&mut entries, "title_stats", " Персонаж ");
        push_entry(&mut entries, "title_equipment", " Снаряжение ");
        push_entry(&mut entries, "title_inventory", " Инвентарь ");
        push_entry(&mut entries, "title_spells", " Заклинания ");
        push_entry(&mut entries, "title_help", " Справка (?) ");
        push_entry(&mut entries, "title_settings", " Настройки (F10) ");
        push_entry(&mut entries, "hint_playing_sp", "   WASD:движение  F:атака  1-5:заклинание  U:использовать  G:надеть  ?:справка  Esc:меню");
        push_entry(&mut entries, "hint_playing_mp", "   Enter:чат   WASD:движение  F:атака  U:использ  G:надеть  ?:справка  Esc:выйти");
        push_entry(&mut entries, "hint_inv", "J/K:выбор  U:использ  G:надеть  X:выбросить");
        push_entry(&mut entries, "hint_inv_empty", "(пусто)");
        push_entry(&mut entries, "hint_windows", "m:Карта l:Журнал c:Стат i:Инв n:Заклинания ?:Справка F10:Настройки Ctrl+R:сброс");
        push_entry(&mut entries, "badge_solo", " СОЛО");
        push_entry(&mut entries, "badge_online", " ОНЛАЙН");
        push_entry(&mut entries, "badge_sp_map", " СОЛО");
        push_entry(&mut entries, "log_welcome_sp", "Добро пожаловать в Войдлэнд! [ОДИНОЧНАЯ]");
        push_entry(&mut entries, "log_welcome_mp", "Добро пожаловать в Войдлэнд!");
        push_entry(&mut entries, "log_controls_sp", "WASD:движение  F:атака  U:использ  G:надеть  P:подобрать  J/K:инв  ?:справка  Esc:меню");
        push_entry(&mut entries, "log_controls_mp", "WASD:движение  F:атака  U:использ  G:надеть  P:подобрать  J/K:инв  Enter:чат  Esc:выйти");
        push_entry(&mut entries, "settings_lang_label", "Язык:");
        push_entry(&mut entries, "settings_lang_val", "Русский (ru)");
        push_entry(&mut entries, "settings_lang_hint", "Tab/Enter: переключить язык");
        push_entry(&mut entries, "settings_3d_label", "Вид по умолчанию:");
        push_entry(&mut entries, "settings_3d_on", "3D Вид от первого лица");
        push_entry(&mut entries, "settings_3d_off", "2D Вид сверху");
        push_entry(&mut entries, "help_content", "=== VOIDQUEST — СПРАВКА ===\n\n── ДВИЖЕНИЕ ──────────────────────────\n  WASD / стрелки  : перемещение\n  Q / E           : по диагонали\n  Z               : по диагонали (вниз-влево)\n  (3D) A/D        : поворот влево/вправо\n  (3D) Q/E        : страфить влево/вправо\n  Мышь            : осмотреться (режим 3D)\n\n── БОЙ ───────────────────────────────\n  F               : атаковать ближайшего монстра\n  1-5             : заклинание (одиночная игра)\n\n── ПРЕДМЕТЫ ──────────────────────────\n  J / PageDown    : следующий слот инвентаря\n  K / PageUp      : предыдущий слот\n  U               : использовать предмет\n  G               : надеть предмет\n  X               : выбросить предмет\n  P               : подобрать предметы рядом\n\n── ВИД ───────────────────────────────\n  F3              : переключить 3D / 2D вид\n  PageUp/PageDown : смотреть вверх/вниз (3D)\n  R               : выровнять горизонт (3D)\n  Мышь по Y       : наклон камеры (3D)\n\n── ОКНА ──────────────────────────────\n  M               : переключить Карту\n  L               : переключить Журнал\n  C               : переключить Статы\n  I               : переключить Инвентарь\n  N               : переключить Заклинания\n  ?               : переключить Справку\n  F10             : переключить Настройки\n  Ctrl+R          : сбросить расположение окон\n  Тянуть заголовок: переместить окно\n  Тянуть угол [\\] : изменить размер\n\n── МИР ───────────────────────────────\n  Глобальная карта: перемещение между зонами\n  Стрелки         : курсор на карте мира\n  Enter           : войти в выбранную зону\n  Esc (в зоне)    : вернуться на карту мира\n\n── МУЛЬТИПЛЕЕР ───────────────────────\n  Enter           : открыть чат\n  Esc             : отключиться и выйти\n\n── ОБ ИГРЕ ───────────────────────────\n  VoidQuest — терминальный roguelike RPG\n  Исследуй процедурно генерируемые зоны,\n  сражайся с монстрами, собирай лут, расти.");
        push_entry(&mut entries, "global_map_title", "=== КАРТА МИРА ВОЙДЛЭНД ===");
        push_entry(&mut entries, "global_map_hint", "Стрелки:курсор  Enter:войти в зону  Esc:главное меню");
        push_entry(&mut entries, "global_map_unvisited", "(не исследована)");
        let r = LocaleConfig { lang: String::from_str("ru"), entries };
        assert(r.entries() =~= ru_entries());
        r
    }

    /// The overrides of a locale file laid over the built-in strings of its
    /// language: Russian when `lang` is "ru", English otherwise; the file's
    /// language is kept as given.
    pub fn from_file(lang: String, en: Vec<(String, String)>, ru: Vec<(String, String)>) -> (r: Self)
        ensures
            r.lang == lang,
            r.entries() == if lang@ == "ru"@ {
                ru_entries() + entries_view(ru@)
            } else {
                en_entries() + entries_view(en@)
            },
    {
        proof { reveal_strlit("ru"); }
        let is_ru = str_eq(lang.as_str(), "ru");
        let mut base = if is_ru { Self::default_ru() } else { Self::default_en() };
        let overrides = if is_ru { ru } else { en };
        let ghost start = base.entries@;
        let mut i: usize = 0;
        while i < overrides.len()
            invariant
                i <= overrides@.len(),
                entries_view(base.entries@) == entries_view(start) + entries_view(overrides@.subrange(0, i as int)),
            decreases overrides.len() - i,
        {
            let (k, v) = &overrides[i];
            let ghost before = base.entries@;
            let kc = k.clone();
            let vc = v.clone();
            base.entries.push((kc, vc));
            assert(overrides@.subrange(0, i + 1) =~= overrides@.subrange(0, i as int).push(overrides@[i as int]));
            assert(entries_view(overrides@.subrange(0, i + 1)) =~= entries_view(overrides@.subrange(0, i as int)).push((k@, v@)));
            assert(entries_view(base.entries@) =~= entries_view(before).push((k@, v@)));
            assert(entries_view(base.entries@) =~= entries_view(start) + entries_view(overrides@.subrange(0, i + 1)));
            i += 1;
        }
        assert(overrides@.subrange(0, overrides@.len() as int) =~= overrides@);
        base.lang = lang;
        base
    }

    /// Toggles between English and Russian: from "en" to the built-in Russian
    /// strings, from anything else to the built-in English ones.
    pub fn switch_lang(&mut self)
        ensures
            old(self).lang@ == "en"@ ==> final(self).lang@ == "ru"@ && final(self).entries() == ru_entries(),
            old(self).lang@ != "en"@ ==> final(self).lang@ == "en"@ && final(self).entries() == en_entries(),
    {
        proof { reveal_strlit("en"); }
        if str_eq(self.lang.as_str(), "en") {
            *self = Self::default_ru();
        } else {
            *self = Self::default_en();
        }
    }

    /// The string for `key`, or the key itself where there is none.
    pub fn t(&self, key: &str) -> (r: String)
        ensures
            r@ == match self.spec_get(key@) {
                Some(v) => v,
                None => key@,
            },
    {
        let ghost all = entries_view(self.entries@);
        let mut i: usize = self.entries.len();
        assert(all.subrange(0, i as int) =~= all);
        while i > 0
            invariant
                i <= self.entries@.len(),
                all == entries_view(self.entries@),
                lookup(all.subrange(0, i as int), key@) == lookup(all, key@),
            decreases i,
        {
            assert(all.subrange(0, i as int).drop_last() =~= all.subrange(0, i - 1));
            if str_eq(self.entries[i - 1].0.as_str(), key) {
                return self.entries[i - 1].1.clone();
            }
            i -= 1;
        }
        assert(all.subrange(0, 0) =~= Seq::<(Seq<char>, Seq<char>)>::empty());
        String::from_str(key)
    }
}

impl Default for LocaleConfig {
    fn default() -> (r: Self)
        ensures
            r.lang@ == "en"@,
            r.entries() == en_entries(),
    {
        Self::default_en()
    }
}

/// Switching the language twice from English gives the built-in English
/// strings back.
pub proof fn lemma_switch_twice(a: LocaleConfig, b: LocaleConfig, c: LocaleConfig)
    requires
        a.lang@ == "en"@,
        b.lang@ == "ru"@ && b.entries() == ru_entries(),
        c.lang@ == "en"@ && c.entries() == en_entries(),
    ensures
        c.lang@ == a.lang@,
        c.entries() == en_entries(),
{
}


/// A string of a locale file overrides the built-in one, and a key without
/// one in the file keeps its built-in string: loading never loses a key.
pub proof fn lemma_overlay(base: Seq<(Seq<char>, Seq<char>)>, over: Seq<(Seq<char>, Seq<char>)>, key: Seq<char>)
    ensures
        lookup(base + over, key) == match lookup(over, key) {
            Some(v) => Some(v),
            None => lookup(base, key),
        },
    decreases over.len(),
{
    if over.len() == 0 {
        assert(base + over =~= base);
    } else {
        assert((base + over).drop_last() =~= base + over.drop_last());
        assert((base + over).last() == over.last());
        lemma_overlay(base, over.drop_last(), key);
    }
}

} // verus!
