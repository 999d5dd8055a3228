# h757_dual

Register-level bring-up logic of an STM32H757 dual-core board, verified with
Verus.

- `src/regs.rs` — the registers, the register operations (`RegOp`) and their
  meaning on a register file (`apply_program`), with the read-modify-write law.
- `src/sequencer.rs` — the step-by-step executor of a procedure; the
  firmware performs each `Action` and reports back. Laws: a poll gives up after
  exactly `POLL_LIMIT` non-matching reads; against a memory-like device the
  sequencer performs exactly the procedure's stores and captures.
- `src/clock.rs` — the Cortex-M7 clock procedure, the clock tree decoded from
  the registers, and the proof that the procedure gives SYSCLK 400 MHz, HCLK
  200 MHz, APB 100 MHz, PLL1Q 80 MHz, and SYSCLK / 5 on MCO2; on hardware
  whose ready flags follow their controls the sequencer completes it and a
  clock report shows the configured fields.
- `src/fdcan.rs` — the FDCAN1 procedure of the Cortex-M4 and the proof that it
  configures Classic CAN at 500 kbit/s with the test frame in TX buffer 0.
- `src/dual_core.rs` — the SRAM4 status words, the start-up procedures of both
  cores (clocks before the Cortex-M4 boots; the outcome word published last),
  the heartbeat iterations, and the Cortex-M7 heartbeat monitor with its laws
  over a whole run.
- `src/pac.rs` — the one value taken from the `stm32h7` peripheral access
  crate (the PLL1Q code of `FDCANSEL`).
- `app/` — the firmware around the library: register accesses through the
  peripheral access crate, barriers, RTT output and the two cores' loops.
