// What the toolkit's headers define as macros, enumerators and struct fields,
// as symbols that the program links against. Compiled together with the
// toolkit, for the h700 platform.
#include "defines.h"
#include "api.h"

const int rgsp_mode_menu = MODE_MENU;
const int rgsp_asset_white_pill = ASSET_WHITE_PILL;
const int rgsp_asset_underline = ASSET_UNDERLINE;

void *rgsp_font_large(void) { return font.large; }

// The library's constants have to be the toolkit's.
_Static_assert(FIXED_SCALE == 2, "FIXED_SCALE");
_Static_assert(PILL_SIZE == 30, "PILL_SIZE");
_Static_assert(BTN_DPAD_UP == 0x01, "BTN_DPAD_UP");
_Static_assert(BTN_DPAD_DOWN == 0x02, "BTN_DPAD_DOWN");
_Static_assert(BTN_DPAD_LEFT == 0x04, "BTN_DPAD_LEFT");
_Static_assert(BTN_DPAD_RIGHT == 0x08, "BTN_DPAD_RIGHT");
_Static_assert(BTN_A == 0x10, "BTN_A");
_Static_assert(BTN_B == 0x20, "BTN_B");
