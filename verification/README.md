# offline_bitcoin_atm

Firmware for a coin-only Bitcoin ATM with Lightning payouts, running offline on
an ESP32 with a Waveshare e-paper display. The decisions the ATM makes are a
library verified with Verus; the firmware around it drives the hardware.

## Layout

- `src/` — the verified library:
  - `coins.rs`: coin acceptor pulse counts to cents, and the pulse-train
    tracking that decides when a coin has been fully counted;
  - `state.rs`: the ATM state machine (idle, counting coins, withdrawal);
  - `control.rs`: timeouts, counting a burst of button presses and the
    screen-clean request, the withdrawal LED blink, the coin pulse timeout,
    when the configuration portal opens, and when the idle screen is redrawn;
  - `util.rs`: the LNbits device string, and the QR matrix of a withdrawal
    link (through the `qrcode` crate);
  - `mempool.rs`: idle-screen ("OrangeClock") settings, the figures shown on
    it, and the round of mempool.space queries that fills them, with its
    fallback endpoint;
  - `display.rs`: rotation setting, thousands separators, the rows of the
    idle screen, where those rows and the QR code are drawn;
  - `config.rs`: how the idle-screen settings are stored and read back;
  - `portal.rs`: the configuration portal's form (`percent-encoding` for
    the decoding);
  - `board.rs`: the supported boards and their pin numbers;
  - `text.rs`: string helpers (trimming, splitting, decimal numbers) with
    their specifications.
- `tests/` — tests of the library.
- `app/` — the firmware: hardware set-up, the main loop, NVS storage, Wi-Fi,
  HTTP and JSON, and drawing on the displays.

Each public function of the library states its result in its `ensures`;
the `law_*` proof functions state properties that span several functions,
such as that writing the idle-screen settings and reading them back gives the
same settings, or that a deposit session pays out the sum of its coins.
