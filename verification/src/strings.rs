//! The keys of the display strings, and the table a language carries for them.

use vstd::prelude::*;

verus! {

pub const COMMON_ADD: usize = 0;
pub const COMMON_BROWSE: usize = 1;
pub const COMMON_CANCEL: usize = 2;
pub const COMMON_FILES_COUNT_ONE: usize = 3;
pub const COMMON_FILES_COUNT_OTHER: usize = 4;
pub const COMMON_NAME_LABEL: usize = 5;
pub const DEST_DELETE_TIP: usize = 6;
pub const DEST_EDIT_TIP: usize = 7;
pub const DEST_EDITOR_ADD_GROUP: usize = 8;
pub const DEST_EDITOR_ADD_ONLY_DESC: usize = 9;
pub const DEST_EDITOR_ALL_RULES: usize = 10;
pub const DEST_EDITOR_ANY_RULE: usize = 11;
pub const DEST_EDITOR_ASK_WHEN_DELETING_MORE_THAN: usize = 12;
pub const DEST_EDITOR_CATCH_ALL_HINT: usize = 13;
pub const DEST_EDITOR_COLLISION_LABEL: usize = 14;
pub const DEST_EDITOR_CONFIRM_LARGE_DELETIONS: usize = 15;
pub const DEST_EDITOR_DELETE_MODE_LABEL: usize = 16;
pub const DEST_EDITOR_DESTINATION_OVERLAP_HINT_FORMAT: usize = 17;
pub const DEST_EDITOR_EXCLUDE_TIP: usize = 18;
pub const DEST_EDITOR_FILES_TO_SYNC_LABEL: usize = 19;
pub const DEST_EDITOR_FLATTEN: usize = 20;
pub const DEST_EDITOR_FOLDER_LABEL: usize = 21;
pub const DEST_EDITOR_KEEP_STRUCTURE: usize = 22;
pub const DEST_EDITOR_MATCH_ALL_GROUPS: usize = 23;
pub const DEST_EDITOR_MATCH_ANY_GROUP: usize = 24;
pub const DEST_EDITOR_MATCH_LABEL: usize = 25;
pub const DEST_EDITOR_MIRROR_DESC2: usize = 26;
pub const DEST_EDITOR_MOVE_OPTIONS_LABEL: usize = 27;
pub const DEST_EDITOR_NAME_PLACEHOLDER: usize = 28;
pub const DEST_EDITOR_NEEDS_FILTER_RULE: usize = 29;
pub const DEST_EDITOR_NEEDS_FOLDER: usize = 30;
pub const DEST_EDITOR_NEEDS_SEPARATE_FOLDER: usize = 31;
pub const DEST_EDITOR_ONLY_MATCHING: usize = 32;
pub const DEST_EDITOR_PATH_PLACEHOLDER: usize = 33;
pub const DEST_EDITOR_PATTERN_PLACEHOLDER: usize = 34;
pub const DEST_EDITOR_PERCENT_OF_DESTINATION: usize = 35;
pub const DEST_EDITOR_SIBLING_OVERLAP_HINT_FORMAT: usize = 36;
pub const DEST_EDITOR_STRATEGY_LABEL: usize = 37;
pub const DEST_EDITOR_VERIFICATION_LABEL: usize = 38;
pub const DEST_EDITOR_VERIFY_CONTENTS: usize = 39;
pub const DEST_EDITOR_VERIFY_NETWORK_WARNING: usize = 40;
pub const DEST_EDITOR_WILDCARD_HINT: usize = 41;
pub const DEST_FILTERS_COUNT_ONE: usize = 42;
pub const DEST_FILTERS_COUNT_OTHER: usize = 43;
pub const DEST_NO_RULES: usize = 44;
pub const DIALOG_SELECT_DESTINATION_FOLDER: usize = 45;
pub const DIALOG_SELECT_SOURCE_FOLDER: usize = 46;
pub const ENUM_DELETE_MODE_PERMANENT: usize = 47;
pub const ENUM_DELETE_MODE_RECYCLE: usize = 48;
pub const ENUM_FILE_NAME_COLLISION_POLICY_SKIP: usize = 49;
pub const ENUM_FILE_NAME_COLLISION_POLICY_SUFFIX: usize = 50;
pub const ENUM_FILTER_KIND_EXTENSION: usize = 51;
pub const ENUM_FILTER_KIND_PATH: usize = 52;
pub const ENUM_FILTER_KIND_WILDCARD: usize = 53;
pub const ENUM_SYNC_STRATEGY_ADD_ONLY: usize = 54;
pub const ENUM_SYNC_STRATEGY_MIRROR: usize = 55;
pub const ENUM_SYNC_STRATEGY_MOVE: usize = 56;
pub const ENUM_SYNC_TASK_KIND_MOVE: usize = 57;
pub const ENUM_SYNC_TASK_KIND_SYNC: usize = 58;
pub const FILTER_ALL_FILES: usize = 59;
pub const FILTER_EXCLUDE_ROW_FORMAT: usize = 60;
pub const FILTER_EXTENSION_ROW_FORMAT: usize = 61;
pub const FILTER_PATH_ROW_FORMAT: usize = 62;
pub const FILTER_WILDCARD_ROW_FORMAT: usize = 63;
pub const LOG_VIEWER_EMPTY: usize = 64;
pub const LOG_VIEWER_OPEN_LOG_FILE: usize = 65;
pub const LOG_VIEWER_OPEN_LOG_FILE_TIP: usize = 66;
pub const LOG_VIEWER_REFRESH: usize = 67;
pub const LOG_VIEWER_REFRESH_TIP: usize = 68;
pub const LOG_VIEWER_TITLE: usize = 69;
pub const LOG_VIEWER_WINDOW_TITLE_FORMAT: usize = 70;
pub const MAIN_COLLAPSE_ALL: usize = 71;
pub const MAIN_CONFIG_UNREADABLE_DETAIL: usize = 72;
pub const MAIN_CONFIG_UNREADABLE_TITLE: usize = 73;
pub const MAIN_DELETE_TASK_CONFIRM: usize = 74;
pub const MAIN_DELETE_TASK_MESSAGE_FORMAT: usize = 75;
pub const MAIN_DELETE_TASK_SUFFIX_ONE: usize = 76;
pub const MAIN_DELETE_TASK_SUFFIX_OTHER: usize = 77;
pub const MAIN_DELETE_TASK_TITLE: usize = 78;
pub const MAIN_EMPTY_STATE: usize = 79;
pub const MAIN_EXPAND_ALL: usize = 80;
pub const MAIN_NEW_TASK: usize = 81;
pub const MAIN_RUN_ALL: usize = 82;
pub const MAIN_SYNC_TASKS_HEADING: usize = 83;
pub const MAIN_TASKS_HEADING: usize = 84;
pub const PROGRESS_COPYING: usize = 85;
pub const PROGRESS_CREATING: usize = 86;
pub const PROGRESS_LINE_FORMAT: usize = 87;
pub const PROGRESS_MOVING: usize = 88;
pub const PROGRESS_REMOVING: usize = 89;
pub const PROGRESS_TIDYING: usize = 90;
pub const SETTINGS_ABOUT_LABEL: usize = 91;
pub const SETTINGS_CLOSE_TO_TRAY: usize = 92;
pub const SETTINGS_CLOSE_TO_TRAY_DESC: usize = 93;
pub const SETTINGS_DONE: usize = 94;
pub const SETTINGS_LANGUAGE_DESC: usize = 95;
pub const SETTINGS_LANGUAGE_LABEL: usize = 96;
pub const SETTINGS_OPEN_FOLDER: usize = 97;
pub const SETTINGS_PAGE_GENERAL: usize = 98;
pub const SETTINGS_START_MINIMIZED: usize = 99;
pub const SETTINGS_START_MINIMIZED_DESC: usize = 100;
pub const SETTINGS_START_WITH_WINDOWS: usize = 101;
pub const SETTINGS_START_WITH_WINDOWS_DESC: usize = 102;
pub const SETTINGS_STARTUP_DISABLED_BY_WINDOWS: usize = 103;
pub const SETTINGS_STARTUP_LABEL: usize = 104;
pub const SETTINGS_STORAGE_LABEL: usize = 105;
pub const SETTINGS_STORAGE_PORTABLE: usize = 106;
pub const SETTINGS_STORAGE_PORTABLE_DESC: usize = 107;
pub const SETTINGS_SYSTEM_DEFAULT: usize = 108;
pub const SETTINGS_TITLE: usize = 109;
pub const SETTINGS_VERSION_FORMAT: usize = 110;
pub const SETTINGS_WINDOW_LABEL: usize = 111;
pub const STATUS_FAILED: usize = 112;
pub const STATUS_FAILED_FORMAT: usize = 113;
pub const STATUS_INCOMPLETE_FORMAT: usize = 114;
pub const STATUS_NEEDS_CONFIRMATION: usize = 115;
pub const STATUS_NEVER_RUN: usize = 116;
pub const STATUS_SYNCED_FORMAT: usize = 117;
pub const STATUS_SYNCING: usize = 118;
pub const TASK_ADD_DESTINATION_TIP: usize = 119;
pub const TASK_ADD_ROUTING_RULE_TIP: usize = 120;
pub const TASK_DELETE_DESTINATION_CONFIRM: usize = 121;
pub const TASK_DELETE_DESTINATION_MESSAGE_FORMAT: usize = 122;
pub const TASK_DELETE_DESTINATION_TITLE: usize = 123;
pub const TASK_DELETE_TIP: usize = 124;
pub const TASK_EDIT_TIP: usize = 125;
pub const TASK_EDITOR_CRON_FIELDS: usize = 126;
pub const TASK_EDITOR_CRON_INVALID: usize = 127;
pub const TASK_EDITOR_CRON_LABEL: usize = 128;
pub const TASK_EDITOR_CRON_NEXT_RUN_FORMAT: usize = 129;
pub const TASK_EDITOR_CRON_NO_UPCOMING: usize = 130;
pub const TASK_EDITOR_KIND_LABEL: usize = 131;
pub const TASK_EDITOR_KIND_LOCKED_HINT: usize = 132;
pub const TASK_EDITOR_KIND_MOVE_DESC: usize = 133;
pub const TASK_EDITOR_KIND_SYNC_DESC: usize = 134;
pub const TASK_EDITOR_MISSING_FOLDER_HINT: usize = 135;
pub const TASK_EDITOR_SAVE: usize = 136;
pub const TASK_EDITOR_SETTLE_HINT: usize = 137;
pub const TASK_EDITOR_SETTLE_LABEL: usize = 138;
pub const TASK_EDITOR_SETTLE_PREFIX: usize = 139;
pub const TASK_EDITOR_SETTLE_SUFFIX: usize = 140;
pub const TASK_EDITOR_SOURCE_FOLDER_LABEL: usize = 141;
pub const TASK_EDITOR_SOURCE_OVERLAP_HINT_FORMAT: usize = 142;
pub const TASK_EDITOR_SOURCE_PLACEHOLDER: usize = 143;
pub const TASK_EDITOR_TITLE: usize = 144;
pub const TASK_EDITOR_TRIGGER_LABEL: usize = 145;
pub const TASK_EDITOR_TRIGGER_SCHEDULED: usize = 146;
pub const TASK_EDITOR_TRIGGER_WATCH: usize = 147;
pub const TASK_NEXT_RUN_FORMAT: usize = 148;
pub const TASK_REVIEW_DELETIONS_TIP: usize = 149;
pub const TASK_RUN_NOW_TIP: usize = 150;
pub const TASK_STOP_TIP: usize = 151;
pub const TASK_TRIGGER_ERROR_BADGE: usize = 152;
pub const TASK_TRIGGER_ERROR_RECOVERABLE_FORMAT: usize = 153;
pub const TASK_TRIGGER_ERROR_START_FORMAT: usize = 154;
pub const TASK_TRIGGER_MANUAL: usize = 155;
pub const TASK_TRIGGER_SCHEDULED_FORMAT: usize = 156;
pub const TASK_TRIGGER_WATCHING: usize = 157;
pub const TIME_DAYS_AGO_FORMAT: usize = 158;
pub const TIME_DUE_NOW: usize = 159;
pub const TIME_HOURS_AGO_FORMAT: usize = 160;
pub const TIME_IN_DAYS_FORMAT: usize = 161;
pub const TIME_IN_HOURS_FORMAT: usize = 162;
pub const TIME_IN_MINUTES_FORMAT: usize = 163;
pub const TIME_IN_UNDER_A_MINUTE: usize = 164;
pub const TIME_JUST_NOW: usize = 165;
pub const TIME_MINUTES_AGO_FORMAT: usize = 166;
pub const WORKSPACE_ADD_CATCH_ALL: usize = 167;
pub const WORKSPACE_ADD_CATCH_ALL_TIP: usize = 168;
pub const WORKSPACE_ADD_DESTINATION: usize = 169;
pub const WORKSPACE_ADD_RULE: usize = 170;
pub const WORKSPACE_DESTINATIONS_TITLE: usize = 171;
pub const WORKSPACE_DISCARD_TIP: usize = 172;
pub const WORKSPACE_DONE_TIP: usize = 173;
pub const WORKSPACE_DUPLICATE_TIP: usize = 174;
pub const WORKSPACE_EDIT_TIP: usize = 175;
pub const WORKSPACE_EVERYTHING_ELSE: usize = 176;
pub const WORKSPACE_MOVE_DOWN_TIP: usize = 177;
pub const WORKSPACE_MOVE_UP_TIP: usize = 178;
pub const WORKSPACE_NOTHING_YET: usize = 179;
pub const WORKSPACE_PREVIEW: usize = 180;
pub const WORKSPACE_PREVIEW_CONTESTED_FORMAT: usize = 181;
pub const WORKSPACE_PREVIEW_FAILED_FORMAT: usize = 182;
pub const WORKSPACE_PREVIEW_SOURCE_FORMAT: usize = 183;
pub const WORKSPACE_PREVIEW_TIP: usize = 184;
pub const WORKSPACE_PREVIEW_UNMATCHED_FORMAT: usize = 185;
pub const WORKSPACE_REMOVE_TIP: usize = 186;
pub const WORKSPACE_ROUTING_EMPTY: usize = 187;
pub const WORKSPACE_ROUTING_SUBTITLE: usize = 188;
pub const WORKSPACE_RULES_TITLE: usize = 189;
pub const WORKSPACE_SAVE: usize = 190;
pub const WORKSPACE_SAVE_BLOCKED_FORMAT: usize = 191;
pub const WORKSPACE_SCANNING_SOURCE: usize = 192;
pub const WORKSPACE_SHADOWED_BY_FORMAT: usize = 193;
pub const WORKSPACE_SYNC_DESTINATION_HINT: usize = 194;
pub const WORKSPACE_SYNC_EMPTY: usize = 195;
pub const WORKSPACE_SYNC_SUBTITLE: usize = 196;

/// How many strings a table holds.
pub const COUNT: usize = 197;

/// One language the window can speak.
#[derive(Debug, PartialEq, Eq)]
pub struct Language {
    /// The BCP-47 tag, as the settings store it.
    pub tag: String,
    /// The language's name in its own words.
    pub name: String,
    /// One string per key.
    pub strings: Vec<String>,
}

impl Language {
    /// The table has a string for every key.
    pub open spec fn wf(self) -> bool {
        self.strings@.len() == COUNT
    }

    /// The string behind `key`.
    pub open spec fn says(self, key: int) -> Seq<char> {
        self.strings@[key]@
    }
}

} // verus!
