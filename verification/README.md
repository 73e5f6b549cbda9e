# discovery

Programs for the STM32F3DISCOVERY board: flashing and spinning the LEDs of
the compass ring, raw GPIO and timer registers, the USART, and the
LSM303DLHC magnetometer over I2C.

- `src/` is the library, verified with Verus. It holds the decisions of
  the programs' loops: the LED patterns (flash, chase, roulette, compass heading)
  with the LEDs they leave lit, the register operations of a TIM6 delay and
  of a magnetometer read, the bytes sent over the USART and the order they
  go in, when a received byte is read, the decoding of the sensor's output bytes, and the request buffer
  of the reverse echo server, held in a `heapless::Vec`.
- `app/` takes the peripherals of the board (through `f3`, `cortex-m` and
  `lsm303dlhc`), performs what the library decides, and prints over the ITM.
  The compass heading, computed in `f32` with `m`'s `atan2`, stays there,
  and so do the fixed register writes of the raw LED exercise.
- `tests/` runs the library on concrete values.
