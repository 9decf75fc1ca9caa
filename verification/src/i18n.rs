use crate::strconv::str_eq;
use vstd::prelude::*;

verus! {

/// The interface languages the application offers.
#[derive(Debug, Clone, Copy, PartialEq, Eq, Structural)]
pub enum Language {
    Russian,
    English,
    Chinese,
}

/// The two-letter code of a language.
pub open spec fn lang_code(l: Language) -> Seq<char> {
    match l {
        Language::Russian => "ru"@,
        Language::English => "en"@,
        Language::Chinese => "zh"@,
    }
}

/// The language a two-letter code selects; anything unrecognized falls back
/// to Russian, as the application always has.
pub open spec fn lang_of_code(code: Seq<char>) -> Language {
    if code == "en"@ {
        Language::English
    } else if code == "zh"@ {
        Language::Chinese
    } else {
        Language::Russian
    }
}

impl Default for Language {
    fn default() -> (r: Self)
        ensures
            r == Language::English,
    {
        Language::English
    }
}

impl Language {
    pub fn from_code(code: &str) -> (r: Self)
        ensures
            r == lang_of_code(code@),
    {
        if str_eq(code, "en") {
            Language::English
        } else if str_eq(code, "zh") {
            Language::Chinese
        } else {
            Language::Russian
        }
    }

    pub fn to_code(&self) -> (r: &'static str)
        ensures
            r@ == lang_code(*self),
    {
        match self {
            Language::Russian => "ru",
            Language::English => "en",
            Language::Chinese => "zh",
        }
    }

    pub fn display_name(&self) -> (r: &'static str)
        ensures
            *self is Russian ==> r@ == "Русский"@,
            *self is English ==> r@ == "English"@,
            *self is Chinese ==> r@ == "中文"@,
    {
        match self {
            Language::Russian => "Русский",
            Language::English => "English",
            Language::Chinese => "中文",
        }
    }

    pub fn all() -> (r: Vec<Self>)
        ensures
            r@ == seq![Language::Russian, Language::English, Language::Chinese],
    {
        let mut v: Vec<Language> = Vec::new();
        v.push(Language::Russian);
        v.push(Language::English);
        v.push(Language::Chinese);
        proof {
            assert(v@ =~= seq![Language::Russian, Language::English, Language::Chinese]);
        }
        v
    }
}

/// A code comes back out of its own language: reading the code a language
/// writes selects that language again.
pub proof fn lemma_language_code_round_trip(l: Language)
    ensures
        lang_of_code(lang_code(l)) == l,
{
    reveal_strlit("ru");
    reveal_strlit("en");
    reveal_strlit("zh");
    assert("ru"@ != "en"@) by {
        assert("ru"@[0] == 'r' && "en"@[0] == 'e');
    }
    assert("ru"@ != "zh"@) by {
        assert("ru"@[0] == 'r' && "zh"@[0] == 'z');
    }
    assert("zh"@ != "en"@) by {
        assert("zh"@[0] == 'z' && "en"@[0] == 'e');
    }
}

/// The marks that tell the three tables apart: each holds its 114 rows and
/// opens with the common words, translated into its own language. The rows
/// beyond these are carried data, looked up by key.
pub open spec fn table_marks(rows: Seq<(String, String)>, l: Language) -> bool {
    &&& rows.len() == 114
    &&& rows[0].0@ == "show"@
    &&& rows[1].0@ == "hide"@
    &&& match l {
        Language::Russian => rows[0].1@ == "показать"@ && rows[1].1@ == "скрыть"@,
        Language::English => rows[0].1@ == "show"@ && rows[1].1@ == "hide"@,
        Language::Chinese => rows[0].1@ == "显示"@ && rows[1].1@ == "隐藏"@,
    }
}

/// The full translation table of a language.
fn load_translations(language: Language) -> (r: Vec<(String, String)>)
    ensures
        table_marks(r@, language),
{
    match language {
        Language::Russian => get_russian_translations(),
        Language::English => get_english_translations(),
        Language::Chinese => get_chinese_translations(),
    }
}

/// The first index holding the key, or -1.
pub open spec fn t_idx(pairs: Seq<(String, String)>, key: Seq<char>) -> int
    decreases pairs.len(),
{
    if pairs.len() == 0 {
        -1
    } else if pairs[0].0@ == key {
        0
    } else {
        if t_idx(pairs.drop_first(), key) < 0 {
            -1
        } else {
            t_idx(pairs.drop_first(), key) + 1
        }
    }
}

/// Where the first pair holding a key stands, if anywhere.
pub proof fn lemma_t_idx_shape(pairs: Seq<(String, String)>, key: Seq<char>)
    ensures
        t_idx(pairs, key) < 0 ==> (forall|i: int|
            0 <= i < pairs.len() ==> (#[trigger] pairs[i]).0@ != key),
        t_idx(pairs, key) >= 0 ==> (0 <= t_idx(pairs, key) < pairs.len() && pairs[t_idx(
            pairs,
            key,
        )].0@ == key && (forall|i: int|
            0 <= i < t_idx(pairs, key) ==> (#[trigger] pairs[i]).0@ != key)),
    decreases pairs.len(),
{
    if pairs.len() > 0 {
        lemma_t_idx_shape(pairs.drop_first(), key);
        if pairs[0].0@ != key {
            assert(forall|i: int|
                1 <= i < pairs.len() ==> #[trigger] pairs[i] == pairs.drop_first()[i - 1]);
        }
    }
}

/// The translation table for the chosen language, with lookup by key. A key
/// with no translation renders as itself.
pub struct I18n {
    translations: Vec<(String, String)>,
    language: Language,
}

impl I18n {
    /// The chosen language.
    pub closed spec fn spec_language(&self) -> Language {
        self.language
    }

    /// The table rows.
    pub closed spec fn spec_translations(&self) -> Seq<(String, String)> {
        self.translations@
    }

    pub fn new(language: Language) -> (r: Self)
        ensures
            r.spec_language() == language,
            table_marks(r.spec_translations(), language),
    {
        I18n { translations: load_translations(language), language }
    }

    pub fn set_language(&mut self, language: Language)
        ensures
            final(self).spec_language() == language,
            table_marks(final(self).spec_translations(), language),
    {
        self.translations = load_translations(language);
        self.language = language;
    }

    pub fn get_language(&self) -> (r: Language)
        ensures
            r == self.spec_language(),
    {
        self.language
    }

    /// The translation of the key in the chosen language, or the key itself
    /// where the table has none.
    pub fn t(&self, key: &str) -> (r: String)
        ensures
            t_idx(self.spec_translations(), key@) < 0 ==> r@ == key@,
            t_idx(self.spec_translations(), key@) >= 0 ==> r@ == self.spec_translations()[t_idx(
                self.spec_translations(),
                key@,
            )].1@,
    {
        let mut i: usize = 0;
        while i < self.translations.len()
            invariant
                i <= self.translations@.len(),
                forall|m: int| 0 <= m < i ==> (#[trigger] self.translations@[m]).0@ != key@,
            decreases self.translations@.len() - i,
        {
            if str_eq(self.translations[i].0.as_str(), key) {
                proof {
                    lemma_t_idx_shape(self.translations@, key@);
                    let ti = t_idx(self.translations@, key@);
                    if ti < 0 {
                        assert(false);
                    }
                    if ti < i {
                        assert(self.translations@[ti].0@ == key@);
                        assert(false);
                    }
                    if ti > i {
                        assert(self.translations@[i as int].0@ != key@);
                        assert(false);
                    }
                }
                return self.translations[i].1.clone();
            }
            i = i + 1;
        }
        proof {
            lemma_t_idx_shape(self.translations@, key@);
            if t_idx(self.translations@, key@) >= 0 {
                assert(self.translations@[t_idx(self.translations@, key@)].0@ == key@);
                assert(false);
            }
        }
        key.to_owned()
    }

    /// The translation as an owned string; the same lookup as `t`.
    pub fn ts(&self, key: &str) -> (r: String)
        ensures
            t_idx(self.spec_translations(), key@) < 0 ==> r@ == key@,
            t_idx(self.spec_translations(), key@) >= 0 ==> r@ == self.spec_translations()[t_idx(
                self.spec_translations(),
                key@,
            )].1@,
    {
        self.t(key)
    }
}

fn get_russian_translations() -> (r: Vec<(String, String)>)
    ensures
        table_marks(r@, Language::Russian),
{
    let mut m: Vec<(String, String)> = Vec::new();
    m.push(("show".to_owned(), "показать".to_owned()));
    m.push(("hide".to_owned(), "скрыть".to_owned()));
    proof {
        assert(m@.len() == 2);
        assert(m@[0].0@ == "show"@ && m@[0].1@ == "показать"@);
        assert(m@[1].0@ == "hide"@ && m@[1].1@ == "скрыть"@);
    }
    m.push(("master_password_title".to_owned(), "RPM - Rust Password Manager".to_owned()));
    m.push(("master_password_create_title".to_owned(), "RPM - Rust Password Manager - Создание мастер-пароля".to_owned()));
    m.push(("master_password_enter".to_owned(), "Введите мастер-пароль".to_owned()));
    m.push(("master_password_directory_label".to_owned(), "Директория с паролями (оставьте пустым для использования пути по умолчанию):".to_owned()));
    m.push(("master_password_directory".to_owned(), "Директория".to_owned()));
    m.push(("master_password_directory_active".to_owned(), "Директория (активно)".to_owned()));
    m.push(("master_password_label".to_owned(), "Пароль:".to_owned()));
    m.push(("master_password".to_owned(), "Пароль".to_owned()));
    m.push(("master_password_active".to_owned(), "Пароль (активно)".to_owned()));
    m.push(("master_password_confirm_label".to_owned(), "Подтверждение:".to_owned()));
    m.push(("master_password_confirm".to_owned(), "Подтверждение".to_owned()));
    m.push(("master_password_confirm_active".to_owned(), "Подтверждение (активно)".to_owned()));
    m.push(("master_password_show_hide".to_owned(), "Ctrl+H - показать/скрыть".to_owned()));
    m.push(("master_password_footer_create".to_owned(), "Enter - продолжить/создать | ↑↓ - переключение полей | Ctrl+H - показать/скрыть пароль | Esc - выход".to_owned()));
    m.push(("master_password_footer_enter".to_owned(), "Enter - подтвердить | Ctrl+H - показать/скрыть пароль | Esc - выход".to_owned()));
    m.push(("main_search".to_owned(), "Поиск (начните вводить для фильтрации)".to_owned()));
    proof {
        assert(m@.len() == 18);
        assert(m@[0].0@ == "show"@ && m@[0].1@ == "показать"@);
        assert(m@[1].0@ == "hide"@ && m@[1].1@ == "скрыть"@);
    }
    m.push(("main_passwords".to_owned(), "Passwords".to_owned()));
    m.push(("main_footer".to_owned(), "F1 - помощь | Ctrl+Q - выход | Ctrl+N - новый пароль | Ctrl+E - редактировать | Ctrl+C - копировать пароль | Ctrl+S - настройки | ↑↓ - навигация | Esc - сброс поиска | Введите для поиска".to_owned()));
    m.push(("settings_title".to_owned(), "Настройки".to_owned()));
    m.push(("settings_save_path_label".to_owned(), "Путь сохранения паролей:".to_owned()));
    m.push(("settings_save_path_title".to_owned(), "Текущий путь".to_owned()));
    m.push(("settings_config_path_label".to_owned(), "Путь к конфигурационному файлу:".to_owned()));
    m.push(("settings_config_path_title".to_owned(), "Файл конфигурации".to_owned()));
    m.push(("settings_config_path_error".to_owned(), "Не удалось определить".to_owned()));
    m.push(("settings_directory_label".to_owned(), "Директория с паролями (оставьте пустым для использования пути по умолчанию):".to_owned()));
    m.push(("settings_directory".to_owned(), "Путь к директории".to_owned()));
    m.push(("settings_directory_active".to_owned(), "Путь к директории (активно)".to_owned()));
    m.push(("settings_clipboard_timeout_label".to_owned(), "Время хранения пароля в буфере обмена (секунды, 0 = не очищать):".to_owned()));
    m.push(("settings_clipboard_timeout".to_owned(), "Время хранения".to_owned()));
    m.push(("settings_clipboard_timeout_active".to_owned(), "Время хранения (активно)".to_owned()));
    m.push(("settings_theme_label".to_owned(), "Тема интерфейса:".to_owned()));
    m.push(("settings_theme".to_owned(), "Тема | Enter - выбрать".to_owned()));
    proof {
        assert(m@.len() == 34);
        assert(m@[0].0@ == "show"@ && m@[0].1@ == "показать"@);
        assert(m@[1].0@ == "hide"@ && m@[1].1@ == "скрыть"@);
    }
    m.push(("settings_theme_active".to_owned(), "Тема (активно) | Enter - выбрать".to_owned()));
    m.push(("settings_language_label".to_owned(), "Язык интерфейса:".to_owned()));
    m.push(("settings_language".to_owned(), "Язык | Enter - выбрать".to_owned()));
    m.push(("settings_language_active".to_owned(), "Язык (активно) | Enter - выбрать".to_owned()));
    m.push(("settings_footer".to_owned(), "Enter - сохранить/выбрать | Esc - отмена | ↑↓ - переключение полей | Введите значение".to_owned()));
    m.push(("password_entry_create_title".to_owned(), "Создание нового пароля".to_owned()));
    m.push(("password_entry_edit_title".to_owned(), "Редактирование пароля".to_owned()));
    m.push(("password_entry_name_label".to_owned(), "Имя:".to_owned()));
    m.push(("password_entry_name".to_owned(), "Имя".to_owned()));
    m.push(("password_entry_name_active".to_owned(), "Имя (активно)".to_owned()));
    m.push(("password_entry_password_label".to_owned(), "Пароль:".to_owned()));
    m.push(("password_entry_password".to_owned(), "Пароль | Ctrl+H - показать/скрыть".to_owned()));
    m.push(("password_entry_password_active".to_owned(), "Пароль (активно) | Ctrl+H - показать/скрыть".to_owned()));
    m.push(("password_entry_footer".to_owned(), "Enter - сохранить | Esc - отмена | ↑↓ - переключение полей | Ctrl+H - показать/скрыть пароль | Ctrl+G - генератор паролей".to_owned()));
    m.push(("password_generator_title".to_owned(), "Генератор паролей".to_owned()));
    m.push(("password_generator_length_label".to_owned(), "Длина пароля:".to_owned()));
    proof {
        assert(m@.len() == 50);
        assert(m@[0].0@ == "show"@ && m@[0].1@ == "показать"@);
        assert(m@[1].0@ == "hide"@ && m@[1].1@ == "скрыть"@);
    }
    m.push(("password_generator_length".to_owned(), "Длина".to_owned()));
    m.push(("password_generator_length_active".to_owned(), "Длина (активно)".to_owned()));
    m.push(("password_generator_exclude_label".to_owned(), "Символы для исключения (по умолчанию пусто):".to_owned()));
    m.push(("password_generator_exclude".to_owned(), "Исключения".to_owned()));
    m.push(("password_generator_exclude_active".to_owned(), "Исключения (активно)".to_owned()));
    m.push(("password_generator_charsets_label".to_owned(), "Наборы символов:".to_owned()));
    m.push(("password_generator_uppercase".to_owned(), "Заглавные буквы (A-Z)".to_owned()));
    m.push(("password_generator_lowercase".to_owned(), "Строчные буквы (a-z)".to_owned()));
    m.push(("password_generator_digits".to_owned(), "Цифры (0-9)".to_owned()));
    m.push(("password_generator_special".to_owned(), "Спецсимволы (!@#$%...)".to_owned()));
    m.push(("password_generator_footer".to_owned(), "Enter - сгенерировать и вставить | Esc - отмена | ↑↓ - навигация | Space - переключить галочку | F1 - справка".to_owned()));
    m.push(("theme_selection_title".to_owned(), "Выбор темы интерфейса".to_owned()));
    m.push(("theme_selection_list_title".to_owned(), "Выберите тему (↑↓ для навигации)".to_owned()));
    m.push(("theme_selection_footer".to_owned(), "Enter - выбрать тему | Esc - отмена | ↑↓ - навигация | F1 - справка".to_owned()));
    m.push(("language_selection_title".to_owned(), "Выбор языка интерфейса".to_owned()));
    m.push(("language_selection_list_title".to_owned(), "Выберите язык (↑↓ для навигации)".to_owned()));
    proof {
        assert(m@.len() == 66);
        assert(m@[0].0@ == "show"@ && m@[0].1@ == "показать"@);
        assert(m@[1].0@ == "hide"@ && m@[1].1@ == "скрыть"@);
    }
    m.push(("language_selection_footer".to_owned(), "Enter - выбрать язык | Esc - отмена | ↑↓ - навигация | F1 - справка".to_owned()));
    m.push(("help_title".to_owned(), "Справка - Горячие клавиши".to_owned()));
    m.push(("help_navigation".to_owned(), "Навигация: используйте прокрутку для просмотра".to_owned()));
    m.push(("help_footer".to_owned(), "F1 / Esc - закрыть справку".to_owned()));
    m.push(("help_separator".to_owned(), "═══════════════════════════════════════════════════════════════".to_owned()));
    m.push(("help_main_screen_title".to_owned(), "ГЛАВНЫЙ ЭКРАН".to_owned()));
    m.push(("help_main_ctrl_q".to_owned(), "  Ctrl+Q          - Выход из приложения".to_owned()));
    m.push(("help_main_ctrl_n".to_owned(), "  Ctrl+N          - Создать новый пароль".to_owned()));
    m.push(("help_main_ctrl_e".to_owned(), "  Ctrl+E          - Редактировать выбранный пароль".to_owned()));
    m.push(("help_main_ctrl_c".to_owned(), "  Ctrl+C          - Копировать пароль в буфер обмена".to_owned()));
    m.push(("help_main_ctrl_s".to_owned(), "  Ctrl+S          - Открыть настройки".to_owned()));
    m.push(("help_main_f1".to_owned(), "  F1              - Открыть эту справку".to_owned()));
    m.push(("help_main_f2".to_owned(), "  F2              - Открыть настройки".to_owned()));
    m.push(("help_main_arrows".to_owned(), "  ↑ / ↓           - Навигация по списку".to_owned()));
    m.push(("help_main_esc".to_owned(), "  Esc             - Сбросить поиск".to_owned()));
    m.push(("help_main_backspace".to_owned(), "  Backspace       - Удалить символ из поиска".to_owned()));
    proof {
        assert(m@.len() == 82);
        assert(m@[0].0@ == "show"@ && m@[0].1@ == "показать"@);
        assert(m@[1].0@ == "hide"@ && m@[1].1@ == "скрыть"@);
    }
    m.push(("help_main_type".to_owned(), "  Ввод текста     - Поиск по паролям (fuzzy search)".to_owned()));
    m.push(("help_master_password_title".to_owned(), "ЭКРАН МАСТЕР-ПАРОЛЯ".to_owned()));
    m.push(("help_master_password_enter".to_owned(), "  Enter           - Продолжить/создать мастер-пароль".to_owned()));
    m.push(("help_master_password_arrows".to_owned(), "  ↑ / ↓           - Переключение между полями".to_owned()));
    m.push(("help_master_password_ctrl_h".to_owned(), "  Ctrl+H          - Показать/скрыть пароль".to_owned()));
    m.push(("help_master_password_f1".to_owned(), "  F1              - Открыть справку".to_owned()));
    m.push(("help_master_password_esc".to_owned(), "  Esc             - Выход из приложения".to_owned()));
    m.push(("help_master_password_backspace".to_owned(), "  Backspace       - Удалить символ".to_owned()));
    m.push(("help_password_entry_title".to_owned(), "ЭКРАН СОЗДАНИЯ/РЕДАКТИРОВАНИЯ ПАРОЛЯ".to_owned()));
    m.push(("help_password_entry_enter".to_owned(), "  Enter           - Сохранить пароль".to_owned()));
    m.push(("help_password_entry_esc".to_owned(), "  Esc             - Отмена и возврат к главному экрану".to_owned()));
    m.push(("help_password_entry_arrows".to_owned(), "  ↑ / ↓           - Переключение между полями (имя/пароль)".to_owned()));
    m.push(("help_password_entry_ctrl_h".to_owned(), "  Ctrl+H          - Показать/скрыть пароль".to_owned()));
    m.push(("help_password_entry_ctrl_g".to_owned(), "  Ctrl+G          - Открыть генератор паролей".to_owned()));
    m.push(("help_password_entry_f1".to_owned(), "  F1              - Открыть справку".to_owned()));
    m.push(("help_password_entry_backspace".to_owned(), "  Backspace       - Удалить символ".to_owned()));
    proof {
        assert(m@.len() == 98);
        assert(m@[0].0@ == "show"@ && m@[0].1@ == "показать"@);
        assert(m@[1].0@ == "hide"@ && m@[1].1@ == "скрыть"@);
    }
    m.push(("help_password_generator_title".to_owned(), "ЭКРАН ГЕНЕРАТОРА ПАРОЛЕЙ".to_owned()));
    m.push(("help_password_generator_enter".to_owned(), "  Enter           - Сгенерировать пароль и вставить".to_owned()));
    m.push(("help_password_generator_esc".to_owned(), "  Esc             - Отмена и возврат к экрану пароля".to_owned()));
    m.push(("help_password_generator_arrows".to_owned(), "  ↑ / ↓           - Навигация по элементам".to_owned()));
    m.push(("help_password_generator_space".to_owned(), "  Space           - Переключить галочку (для наборов символов)".to_owned()));
    m.push(("help_password_generator_backspace".to_owned(), "  Backspace       - Удалить символ в активном поле".to_owned()));
    m.push(("help_password_generator_type".to_owned(), "  Ввод символов   - Ввод в активное поле (длина/исключения)".to_owned()));
    m.push(("help_password_generator_f1".to_owned(), "  F1              - Открыть справку".to_owned()));
    m.push(("help_settings_title".to_owned(), "ЭКРАН НАСТРОЕК".to_owned()));
    m.push(("help_settings_enter".to_owned(), "  Enter           - Сохранить настройки".to_owned()));
    m.push(("help_settings_esc".to_owned(), "  Esc / Q         - Отмена и возврат к главному экрану".to_owned()));
    m.push(("help_settings_arrows".to_owned(), "  ↑ / ↓           - Переключение между полями".to_owned()));
    m.push(("help_settings_f1".to_owned(), "  F1              - Открыть справку".to_owned()));
    m.push(("help_settings_backspace".to_owned(), "  Backspace       - Удалить символ".to_owned()));
    m.push(("help_help_title".to_owned(), "СПРАВКА".to_owned()));
    m.push(("help_help_close".to_owned(), "  F1 / Esc        - Закрыть справку и вернуться".to_owned()));
    proof {
        assert(m@.len() == 114);
        assert(m@[0].0@ == "show"@ && m@[0].1@ == "показать"@);
        assert(m@[1].0@ == "hide"@ && m@[1].1@ == "скрыть"@);
    }
    m
}

fn get_english_translations() -> (r: Vec<(String, String)>)
    ensures
        table_marks(r@, Language::English),
{
    let mut m: Vec<(String, String)> = Vec::new();
    m.push(("show".to_owned(), "show".to_owned()));
    m.push(("hide".to_owned(), "hide".to_owned()));
    proof {
        assert(m@.len() == 2);
        assert(m@[0].0@ == "show"@ && m@[0].1@ == "show"@);
        assert(m@[1].0@ == "hide"@ && m@[1].1@ == "hide"@);
    }
    m.push(("master_password_title".to_owned(), "RPM - Rust Password Manager".to_owned()));
    m.push(("master_password_create_title".to_owned(), "RPM - Rust Password Manager - Create Master Password".to_owned()));
    m.push(("master_password_enter".to_owned(), "Enter master password".to_owned()));
    m.push(("master_password_directory_label".to_owned(), "Passwords directory (leave empty to use default path):".to_owned()));
    m.push(("master_password_directory".to_owned(), "Directory".to_owned()));
    m.push(("master_password_directory_active".to_owned(), "Directory (active)".to_owned()));
    m.push(("master_password_label".to_owned(), "Password:".to_owned()));
    m.push(("master_password".to_owned(), "Password".to_owned()));
    m.push(("master_password_active".to_owned(), "Password (active)".to_owned()));
    m.push(("master_password_confirm_label".to_owned(), "Confirm:".to_owned()));
    m.push(("master_password_confirm".to_owned(), "Confirm".to_owned()));
    m.push(("master_password_confirm_active".to_owned(), "Confirm (active)".to_owned()));
    m.push(("master_password_show_hide".to_owned(), "Ctrl+H - show/hide".to_owned()));
    m.push(("master_password_footer_create".to_owned(), "Enter - continue/create | ↑↓ - switch fields | Ctrl+H - show/hide password | Esc - exit".to_owned()));
    m.push(("master_password_footer_enter".to_owned(), "Enter - confirm | Ctrl+H - show/hide password | Esc - exit".to_owned()));
    m.push(("main_search".to_owned(), "Search (start typing to filter)".to_owned()));
    proof {
        assert(m@.len() == 18);
        assert(m@[0].0@ == "show"@ && m@[0].1@ == "show"@);
        assert(m@[1].0@ == "hide"@ && m@[1].1@ == "hide"@);
    }
    m.push(("main_passwords".to_owned(), "Passwords".to_owned()));
    m.push(("main_footer".to_owned(), "F1 - help | Ctrl+Q - quit | Ctrl+N - new password | Ctrl+E - edit | Ctrl+C - copy password | Ctrl+S - settings | ↑↓ - navigation | Esc - reset search | Type to search".to_owned()));
    m.push(("settings_title".to_owned(), "Settings".to_owned()));
    m.push(("settings_save_path_label".to_owned(), "Passwords save path:".to_owned()));
    m.push(("settings_save_path_title".to_owned(), "Current path".to_owned()));
    m.push(("settings_config_path_label".to_owned(), "Configuration file path:".to_owned()));
    m.push(("settings_config_path_title".to_owned(), "Configuration file".to_owned()));
    m.push(("settings_config_path_error".to_owned(), "Could not determine".to_owned()));
    m.push(("settings_directory_label".to_owned(), "Passwords directory (leave empty to use default path):".to_owned()));
    m.push(("settings_directory".to_owned(), "Directory path".to_owned()));
    m.push(("settings_directory_active".to_owned(), "Directory path (active)".to_owned()));
    m.push(("settings_clipboard_timeout_label".to_owned(), "Clipboard timeout (seconds, 0 = don't clear):".to_owned()));
    m.push(("settings_clipboard_timeout".to_owned(), "Timeout".to_owned()));
    m.push(("settings_clipboard_timeout_active".to_owned(), "Timeout (active)".to_owned()));
    m.push(("settings_theme_label".to_owned(), "Interface theme:".to_owned()));
    m.push(("settings_theme".to_owned(), "Theme | Enter - select".to_owned()));
    proof {
        assert(m@.len() == 34);
        assert(m@[0].0@ == "show"@ && m@[0].1@ == "show"@);
        assert(m@[1].0@ == "hide"@ && m@[1].1@ == "hide"@);
    }
    m.push(("settings_theme_active".to_owned(), "Theme (active) | Enter - select".to_owned()));
    m.push(("settings_language_label".to_owned(), "Interface language:".to_owned()));
    m.push(("settings_language".to_owned(), "Language | Enter - select".to_owned()));
    m.push(("settings_language_active".to_owned(), "Language (active) | Enter - select".to_owned()));
    m.push(("settings_footer".to_owned(), "Enter - save/select | Esc - cancel | ↑↓ - switch fields | Enter value".to_owned()));
    m.push(("password_entry_create_title".to_owned(), "Create New Password".to_owned()));
    m.push(("password_entry_edit_title".to_owned(), "Edit Password".to_owned()));
    m.push(("password_entry_name_label".to_owned(), "Name:".to_owned()));
    m.push(("password_entry_name".to_owned(), "Name".to_owned()));
    m.push(("password_entry_name_active".to_owned(), "Name (active)".to_owned()));
    m.push(("password_entry_password_label".to_owned(), "Password:".to_owned()));
    m.push(("password_entry_password".to_owned(), "Password | Ctrl+H - show/hide".to_owned()));
    m.push(("password_entry_password_active".to_owned(), "Password (active) | Ctrl+H - show/hide".to_owned()));
    m.push(("password_entry_footer".to_owned(), "Enter - save | Esc - cancel | ↑↓ - switch fields | Ctrl+H - show/hide password | Ctrl+G - password generator".to_owned()));
    m.push(("password_generator_title".to_owned(), "Password Generator".to_owned()));
    m.push(("password_generator_length_label".to_owned(), "Password length:".to_owned()));
    proof {
        assert(m@.len() == 50);
        assert(m@[0].0@ == "show"@ && m@[0].1@ == "show"@);
        assert(m@[1].0@ == "hide"@ && m@[1].1@ == "hide"@);
    }
    m.push(("password_generator_length".to_owned(), "Length".to_owned()));
    m.push(("password_generator_length_active".to_owned(), "Length (active)".to_owned()));
    m.push(("password_generator_exclude_label".to_owned(), "Characters to exclude (empty by default):".to_owned()));
    m.push(("password_generator_exclude".to_owned(), "Exclude".to_owned()));
    m.push(("password_generator_exclude_active".to_owned(), "Exclude (active)".to_owned()));
    m.push(("password_generator_charsets_label".to_owned(), "Character sets:".to_owned()));
    m.push(("password_generator_uppercase".to_owned(), "Uppercase letters (A-Z)".to_owned()));
    m.push(("password_generator_lowercase".to_owned(), "Lowercase letters (a-z)".to_owned()));
    m.push(("password_generator_digits".to_owned(), "Digits (0-9)".to_owned()));
    m.push(("password_generator_special".to_owned(), "Special characters (!@#$%...)".to_owned()));
    m.push(("password_generator_footer".to_owned(), "Enter - generate and insert | Esc - cancel | ↑↓ - navigation | Space - toggle checkbox | F1 - help".to_owned()));
    m.push(("theme_selection_title".to_owned(), "Select Interface Theme".to_owned()));
    m.push(("theme_selection_list_title".to_owned(), "Select theme (↑↓ for navigation)".to_owned()));
    m.push(("theme_selection_footer".to_owned(), "Enter - select theme | Esc - cancel | ↑↓ - navigation | F1 - help".to_owned()));
    m.push(("language_selection_title".to_owned(), "Select Interface Language".to_owned()));
    m.push(("language_selection_list_title".to_owned(), "Select language (↑↓ for navigation)".to_owned()));
    proof {
        assert(m@.len() == 66);
        assert(m@[0].0@ == "show"@ && m@[0].1@ == "show"@);
        assert(m@[1].0@ == "hide"@ && m@[1].1@ == "hide"@);
    }
    m.push(("language_selection_footer".to_owned(), "Enter - select language | Esc - cancel | ↑↓ - navigation | F1 - help".to_owned()));
    m.push(("help_title".to_owned(), "Help - Hotkeys".to_owned()));
    m.push(("help_navigation".to_owned(), "Navigation: use scroll to view".to_owned()));
    m.push(("help_footer".to_owned(), "F1 / Esc - close help".to_owned()));
    m.push(("help_separator".to_owned(), "═══════════════════════════════════════════════════════════════".to_owned()));
    m.push(("help_main_screen_title".to_owned(), "MAIN SCREEN".to_owned()));
    m.push(("help_main_ctrl_q".to_owned(), "  Ctrl+Q          - Quit application".to_owned()));
    m.push(("help_main_ctrl_n".to_owned(), "  Ctrl+N          - Create new password".to_owned()));
    m.push(("help_main_ctrl_e".to_owned(), "  Ctrl+E          - Edit selected password".to_owned()));
    m.push(("help_main_ctrl_c".to_owned(), "  Ctrl+C          - Copy password to clipboard".to_owned()));
    m.push(("help_main_ctrl_s".to_owned(), "  Ctrl+S          - Open settings".to_owned()));
    m.push(("help_main_f1".to_owned(), "  F1              - Open this help".to_owned()));
    m.push(("help_main_f2".to_owned(), "  F2              - Open settings".to_owned()));
    m.push(("help_main_arrows".to_owned(), "  ↑ / ↓           - Navigate list".to_owned()));
    m.push(("help_main_esc".to_owned(), "  Esc             - Reset search".to_owned()));
    m.push(("help_main_backspace".to_owned(), "  Backspace       - Delete character from search".to_owned()));
    proof {
        assert(m@.len() == 82);
        assert(m@[0].0@ == "show"@ && m@[0].1@ == "show"@);
        assert(m@[1].0@ == "hide"@ && m@[1].1@ == "hide"@);
    }
    m.push(("help_main_type".to_owned(), "  Type text       - Search passwords (fuzzy search)".to_owned()));
    m.push(("help_master_password_title".to_owned(), "MASTER PASSWORD SCREEN".to_owned()));
    m.push(("help_master_password_enter".to_owned(), "  Enter           - Continue/create master password".to_owned()));
    m.push(("help_master_password_arrows".to_owned(), "  ↑ / ↓           - Switch between fields".to_owned()));
    m.push(("help_master_password_ctrl_h".to_owned(), "  Ctrl+H          - Show/hide password".to_owned()));
    m.push(("help_master_password_f1".to_owned(), "  F1              - Open help".to_owned()));
    m.push(("help_master_password_esc".to_owned(), "  Esc             - Quit application".to_owned()));
    m.push(("help_master_password_backspace".to_owned(), "  Backspace       - Delete character".to_owned()));
    m.push(("help_password_entry_title".to_owned(), "PASSWORD ENTRY SCREEN".to_owned()));
    m.push(("help_password_entry_enter".to_owned(), "  Enter           - Save password".to_owned()));
    m.push(("help_password_entry_esc".to_owned(), "  Esc             - Cancel and return to main screen".to_owned()));
    m.push(("help_password_entry_arrows".to_owned(), "  ↑ / ↓           - Switch between fields (name/password)".to_owned()));
    m.push(("help_password_entry_ctrl_h".to_owned(), "  Ctrl+H          - Show/hide password".to_owned()));
    m.push(("help_password_entry_ctrl_g".to_owned(), "  Ctrl+G          - Open password generator".to_owned()));
    m.push(("help_password_entry_f1".to_owned(), "  F1              - Open help".to_owned()));
    m.push(("help_password_entry_backspace".to_owned(), "  Backspace       - Delete character".to_owned()));
    proof {
        assert(m@.len() == 98);
        assert(m@[0].0@ == "show"@ && m@[0].1@ == "show"@);
        assert(m@[1].0@ == "hide"@ && m@[1].1@ == "hide"@);
    }
    m.push(("help_password_generator_title".to_owned(), "PASSWORD GENERATOR SCREEN".to_owned()));
    m.push(("help_password_generator_enter".to_owned(), "  Enter           - Generate password and insert".to_owned()));
    m.push(("help_password_generator_esc".to_owned(), "  Esc             - Cancel and return to password screen".to_owned()));
    m.push(("help_password_generator_arrows".to_owned(), "  ↑ / ↓           - Navigate elements".to_owned()));
    m.push(("help_password_generator_space".to_owned(), "  Space           - Toggle checkbox (for character sets)".to_owned()));
    m.push(("help_password_generator_backspace".to_owned(), "  Backspace       - Delete character in active field".to_owned()));
    m.push(("help_password_generator_type".to_owned(), "  Type characters - Input in active field (length/exclude)".to_owned()));
    m.push(("help_password_generator_f1".to_owned(), "  F1              - Open help".to_owned()));
    m.push(("help_settings_title".to_owned(), "SETTINGS SCREEN".to_owned()));
    m.push(("help_settings_enter".to_owned(), "  Enter           - Save settings".to_owned()));
    m.push(("help_settings_esc".to_owned(), "  Esc / Q         - Cancel and return to main screen".to_owned()));
    m.push(("help_settings_arrows".to_owned(), "  ↑ / ↓           - Switch between fields".to_owned()));
    m.push(("help_settings_f1".to_owned(), "  F1              - Open help".to_owned()));
    m.push(("help_settings_backspace".to_owned(), "  Backspace       - Delete character".to_owned()));
    m.push(("help_help_title".to_owned(), "HELP".to_owned()));
    m.push(("help_help_close".to_owned(), "  F1 / Esc        - Close help and return".to_owned()));
    proof {
        assert(m@.len() == 114);
        assert(m@[0].0@ == "show"@ && m@[0].1@ == "show"@);
        assert(m@[1].0@ == "hide"@ && m@[1].1@ == "hide"@);
    }
    m
}

fn get_chinese_translations() -> (r: Vec<(String, String)>)
    ensures
        table_marks(r@, Language::Chinese),
{
    let mut m: Vec<(String, String)> = Vec::new();
    m.push(("show".to_owned(), "显示".to_owned()));
    m.push(("hide".to_owned(), "隐藏".to_owned()));
    proof {
        assert(m@.len() == 2);
        assert(m@[0].0@ == "show"@ && m@[0].1@ == "显示"@);
        assert(m@[1].0@ == "hide"@ && m@[1].1@ == "隐藏"@);
    }
    m.push(("master_password_title".to_owned(), "RPM - Rust Password Manager".to_owned()));
    m.push(("master_password_create_title".to_owned(), "RPM - Rust Password Manager - 创建主密码".to_owned()));
    m.push(("master_password_enter".to_owned(), "输入主密码".to_owned()));
    m.push(("master_password_directory_label".to_owned(), "密码目录（留空以使用默认路径）：".to_owned()));
    m.push(("master_password_directory".to_owned(), "目录".to_owned()));
    m.push(("master_password_directory_active".to_owned(), "目录（活动）".to_owned()));
    m.push(("master_password_label".to_owned(), "密码：".to_owned()));
    m.push(("master_password".to_owned(), "密码".to_owned()));
    m.push(("master_password_active".to_owned(), "密码（活动）".to_owned()));
    m.push(("master_password_confirm_label".to_owned(), "确认：".to_owned()));
    m.push(("master_password_confirm".to_owned(), "确认".to_owned()));
    m.push(("master_password_confirm_active".to_owned(), "确认（活动）".to_owned()));
    m.push(("master_password_show_hide".to_owned(), "Ctrl+H - 显示/隐藏".to_owned()));
    m.push(("master_password_footer_create".to_owned(), "Enter - 继续/创建 | ↑↓ - 切换字段 | Ctrl+H - 显示/隐藏密码 | Esc - 退出".to_owned()));
    m.push(("master_password_footer_enter".to_owned(), "Enter - 确认 | Ctrl+H - 显示/隐藏密码 | Esc - 退出".to_owned()));
    m.push(("main_search".to_owned(), "搜索（开始输入以过滤）".to_owned()));
    proof {
        assert(m@.len() == 18);
        assert(m@[0].0@ == "show"@ && m@[0].1@ == "显示"@);
        assert(m@[1].0@ == "hide"@ && m@[1].1@ == "隐藏"@);
    }
    m.push(("main_passwords".to_owned(), "密码".to_owned()));
    m.push(("main_footer".to_owned(), "F1 - 帮助 | Ctrl+Q - 退出 | Ctrl+N - 新密码 | Ctrl+E - 编辑 | Ctrl+C - 复制密码 | Ctrl+S - 设置 | ↑↓ - 导航 | Esc - 重置搜索 | 输入以搜索".to_owned()));
    m.push(("settings_title".to_owned(), "设置".to_owned()));
    m.push(("settings_save_path_label".to_owned(), "密码保存路径：".to_owned()));
    m.push(("settings_save_path_title".to_owned(), "当前路径".to_owned()));
    m.push(("settings_config_path_label".to_owned(), "配置文件路径：".to_owned()));
    m.push(("settings_config_path_title".to_owned(), "配置文件".to_owned()));
    m.push(("settings_config_path_error".to_owned(), "无法确定".to_owned()));
    m.push(("settings_directory_label".to_owned(), "密码目录（留空以使用默认路径）：".to_owned()));
    m.push(("settings_directory".to_owned(), "目录路径".to_owned()));
    m.push(("settings_directory_active".to_owned(), "目录路径（活动）".to_owned()));
    m.push(("settings_clipboard_timeout_label".to_owned(), "剪贴板超时（秒，0 = 不清除）：".to_owned()));
    m.push(("settings_clipboard_timeout".to_owned(), "超时".to_owned()));
    m.push(("settings_clipboard_timeout_active".to_owned(), "超时（活动）".to_owned()));
    m.push(("settings_theme_label".to_owned(), "界面主题：".to_owned()));
    m.push(("settings_theme".to_owned(), "主题 | Enter - 选择".to_owned()));
    proof {
        assert(m@.len() == 34);
        assert(m@[0].0@ == "show"@ && m@[0].1@ == "显示"@);
        assert(m@[1].0@ == "hide"@ && m@[1].1@ == "隐藏"@);
    }
    m.push(("settings_theme_active".to_owned(), "主题（活动） | Enter - 选择".to_owned()));
    m.push(("settings_language_label".to_owned(), "界面语言：".to_owned()));
    m.push(("settings_language".to_owned(), "语言 | Enter - 选择".to_owned()));
    m.push(("settings_language_active".to_owned(), "语言（活动） | Enter - 选择".to_owned()));
    m.push(("settings_footer".to_owned(), "Enter - 保存/选择 | Esc - 取消 | ↑↓ - 切换字段 | 输入值".to_owned()));
    m.push(("password_entry_create_title".to_owned(), "创建新密码".to_owned()));
    m.push(("password_entry_edit_title".to_owned(), "编辑密码".to_owned()));
    m.push(("password_entry_name_label".to_owned(), "名称：".to_owned()));
    m.push(("password_entry_name".to_owned(), "名称".to_owned()));
    m.push(("password_entry_name_active".to_owned(), "名称（活动）".to_owned()));
    m.push(("password_entry_password_label".to_owned(), "密码：".to_owned()));
    m.push(("password_entry_password".to_owned(), "密码 | Ctrl+H - 显示/隐藏".to_owned()));
    m.push(("password_entry_password_active".to_owned(), "密码（活动） | Ctrl+H - 显示/隐藏".to_owned()));
    m.push(("password_entry_footer".to_owned(), "Enter - 保存 | Esc - 取消 | ↑↓ - 切换字段 | Ctrl+H - 显示/隐藏密码 | Ctrl+G - 密码生成器".to_owned()));
    m.push(("password_generator_title".to_owned(), "密码生成器".to_owned()));
    m.push(("password_generator_length_label".to_owned(), "密码长度：".to_owned()));
    proof {
        assert(m@.len() == 50);
        assert(m@[0].0@ == "show"@ && m@[0].1@ == "显示"@);
        assert(m@[1].0@ == "hide"@ && m@[1].1@ == "隐藏"@);
    }
    m.push(("password_generator_length".to_owned(), "长度".to_owned()));
    m.push(("password_generator_length_active".to_owned(), "长度（活动）".to_owned()));
    m.push(("password_generator_exclude_label".to_owned(), "要排除的字符（默认为空）：".to_owned()));
    m.push(("password_generator_exclude".to_owned(), "排除".to_owned()));
    m.push(("password_generator_exclude_active".to_owned(), "排除（活动）".to_owned()));
    m.push(("password_generator_charsets_label".to_owned(), "字符集：".to_owned()));
    m.push(("password_generator_uppercase".to_owned(), "大写字母 (A-Z)".to_owned()));
    m.push(("password_generator_lowercase".to_owned(), "小写字母 (a-z)".to_owned()));
    m.push(("password_generator_digits".to_owned(), "数字 (0-9)".to_owned()));
    m.push(("password_generator_special".to_owned(), "特殊字符 (!@#$%...)".to_owned()));
    m.push(("password_generator_footer".to_owned(), "Enter - 生成并插入 | Esc - 取消 | ↑↓ - 导航 | Space - 切换复选框 | F1 - 帮助".to_owned()));
    m.push(("theme_selection_title".to_owned(), "选择界面主题".to_owned()));
    m.push(("theme_selection_list_title".to_owned(), "选择主题（↑↓ 导航）".to_owned()));
    m.push(("theme_selection_footer".to_owned(), "Enter - 选择主题 | Esc - 取消 | ↑↓ - 导航 | F1 - 帮助".to_owned()));
    m.push(("language_selection_title".to_owned(), "选择界面语言".to_owned()));
    m.push(("language_selection_list_title".to_owned(), "选择语言（↑↓ 导航）".to_owned()));
    proof {
        assert(m@.len() == 66);
        assert(m@[0].0@ == "show"@ && m@[0].1@ == "显示"@);
        assert(m@[1].0@ == "hide"@ && m@[1].1@ == "隐藏"@);
    }
    m.push(("language_selection_footer".to_owned(), "Enter - 选择语言 | Esc - 取消 | ↑↓ - 导航 | F1 - 帮助".to_owned()));
    m.push(("help_title".to_owned(), "帮助 - 快捷键".to_owned()));
    m.push(("help_navigation".to_owned(), "导航：使用滚动查看".to_owned()));
    m.push(("help_footer".to_owned(), "F1 / Esc - 关闭帮助".to_owned()));
    m.push(("help_separator".to_owned(), "═══════════════════════════════════════════════════════════════".to_owned()));
    m.push(("help_main_screen_title".to_owned(), "主屏幕".to_owned()));
    m.push(("help_main_ctrl_q".to_owned(), "  Ctrl+Q          - 退出应用程序".to_owned()));
    m.push(("help_main_ctrl_n".to_owned(), "  Ctrl+N          - 创建新密码".to_owned()));
    m.push(("help_main_ctrl_e".to_owned(), "  Ctrl+E          - 编辑所选密码".to_owned()));
    m.push(("help_main_ctrl_c".to_owned(), "  Ctrl+C          - 复制密码到剪贴板".to_owned()));
    m.push(("help_main_ctrl_s".to_owned(), "  Ctrl+S          - 打开设置".to_owned()));
    m.push(("help_main_f1".to_owned(), "  F1              - 打开此帮助".to_owned()));
    m.push(("help_main_f2".to_owned(), "  F2              - 打开设置".to_owned()));
    m.push(("help_main_arrows".to_owned(), "  ↑ / ↓           - 导航列表".to_owned()));
    m.push(("help_main_esc".to_owned(), "  Esc             - 重置搜索".to_owned()));
    m.push(("help_main_backspace".to_owned(), "  Backspace       - 从搜索中删除字符".to_owned()));
    proof {
        assert(m@.len() == 82);
        assert(m@[0].0@ == "show"@ && m@[0].1@ == "显示"@);
        assert(m@[1].0@ == "hide"@ && m@[1].1@ == "隐藏"@);
    }
    m.push(("help_main_type".to_owned(), "  输入文本       - 搜索密码（模糊搜索）".to_owned()));
    m.push(("help_master_password_title".to_owned(), "主密码屏幕".to_owned()));
    m.push(("help_master_password_enter".to_owned(), "  Enter           - 继续/创建主密码".to_owned()));
    m.push(("help_master_password_arrows".to_owned(), "  ↑ / ↓           - 在字段之间切换".to_owned()));
    m.push(("help_master_password_ctrl_h".to_owned(), "  Ctrl+H          - 显示/隐藏密码".to_owned()));
    m.push(("help_master_password_f1".to_owned(), "  F1              - 打开帮助".to_owned()));
    m.push(("help_master_password_esc".to_owned(), "  Esc             - 退出应用程序".to_owned()));
    m.push(("help_master_password_backspace".to_owned(), "  Backspace       - 删除字符".to_owned()));
    m.push(("help_password_entry_title".to_owned(), "密码输入屏幕".to_owned()));
    m.push(("help_password_entry_enter".to_owned(), "  Enter           - 保存密码".to_owned()));
    m.push(("help_password_entry_esc".to_owned(), "  Esc             - 取消并返回主屏幕".to_owned()));
    m.push(("help_password_entry_arrows".to_owned(), "  ↑ / ↓           - 在字段之间切换（名称/密码）".to_owned()));
    m.push(("help_password_entry_ctrl_h".to_owned(), "  Ctrl+H          - 显示/隐藏密码".to_owned()));
    m.push(("help_password_entry_ctrl_g".to_owned(), "  Ctrl+G          - 打开密码生成器".to_owned()));
    m.push(("help_password_entry_f1".to_owned(), "  F1              - 打开帮助".to_owned()));
    m.push(("help_password_entry_backspace".to_owned(), "  Backspace       - 删除字符".to_owned()));
    proof {
        assert(m@.len() == 98);
        assert(m@[0].0@ == "show"@ && m@[0].1@ == "显示"@);
        assert(m@[1].0@ == "hide"@ && m@[1].1@ == "隐藏"@);
    }
    m.push(("help_password_generator_title".to_owned(), "密码生成器屏幕".to_owned()));
    m.push(("help_password_generator_enter".to_owned(), "  Enter           - 生成密码并插入".to_owned()));
    m.push(("help_password_generator_esc".to_owned(), "  Esc             - 取消并返回密码屏幕".to_owned()));
    m.push(("help_password_generator_arrows".to_owned(), "  ↑ / ↓           - 导航元素".to_owned()));
    m.push(("help_password_generator_space".to_owned(), "  Space           - 切换复选框（字符集）".to_owned()));
    m.push(("help_password_generator_backspace".to_owned(), "  Backspace       - 删除活动字段中的字符".to_owned()));
    m.push(("help_password_generator_type".to_owned(), "  输入字符       - 在活动字段中输入（长度/排除）".to_owned()));
    m.push(("help_password_generator_f1".to_owned(), "  F1              - 打开帮助".to_owned()));
    m.push(("help_settings_title".to_owned(), "设置屏幕".to_owned()));
    m.push(("help_settings_enter".to_owned(), "  Enter           - 保存设置".to_owned()));
    m.push(("help_settings_esc".to_owned(), "  Esc / Q         - 取消并返回主屏幕".to_owned()));
    m.push(("help_settings_arrows".to_owned(), "  ↑ / ↓           - 在字段之间切换".to_owned()));
    m.push(("help_settings_f1".to_owned(), "  F1              - 打开帮助".to_owned()));
    m.push(("help_settings_backspace".to_owned(), "  Backspace       - 删除字符".to_owned()));
    m.push(("help_help_title".to_owned(), "帮助".to_owned()));
    m.push(("help_help_close".to_owned(), "  F1 / Esc        - 关闭帮助并返回".to_owned()));
    proof {
        assert(m@.len() == 114);
        assert(m@[0].0@ == "show"@ && m@[0].1@ == "显示"@);
        assert(m@[1].0@ == "hide"@ && m@[1].1@ == "隐藏"@);
    }
    m
}

} // verus!
