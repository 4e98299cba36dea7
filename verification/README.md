# chrono (dates with time zones)

A verified library of calendar dates with an attached time zone offset, on
the proleptic Gregorian calendar from -262144-01-01 to 262143-12-31.

- `src/calendar.rs`: the calendar as mathematics (day numbers, civil dates,
  leap years) with the lemmas that connect them, and the verified conversion
  from day numbers to civil dates.
- `src/naive_date.rs`, `src/naive_time.rs`, `src/duration.rs`: dates, times
  and durations without a time zone.
- `src/offset.rs`, `src/datetime.rs`, `src/date.rs`: time zones (`Utc`,
  `FixedOffset`, and the `TimeZone` trait), and dates and date-times in them.
- `src/format.rs`: strftime-style format strings, parsed and written out.
- `src/clock.rs`: today's date from the system clock.
- `src/laws.rs`: properties that span several operations.
- `app/lib.rs`: copies of the date types that carry rkyv's derives.

What is not here:

- There is no `Local` time zone. It needs the machine's time-zone settings, read
  from the environment and the file system, and the library's rules keep both out
  of the verified code; the tests of adding and subtracting days on `Local` dates
  are therefore absent (the same properties are proved for every `TimeZone`).
- There is no localized formatting (`format_localized`,
  `format_localized_with_items`): its locale tables come from an outside locale
  crate that cannot be had here, and the formatting cannot be parted from them.
