# vatsim_parser

A verified library that reads the files of a EuroScope controller profile for
VATSIM and builds from them what a radar display needs: sector files (`.sct`),
extension files (`.ese`), profiles (`.prf`), `Symbology.txt`, display settings
(`.asr`), the TopSky plugin's settings, symbols and maps, airway and navigation
data, the ICAO aircraft, airline and airport lists, and squawks.json. It also
writes a sector file back out as text.

The library is written in Verus: each public function states in its contract
what it returns, and Verus proves the code against it.

## Layout

- `src/` — the verified library, one module per file format or model
  (`sct`, `ese`, `prf`, `asr`, `symbology`, `topsky*`, `airway`, `airways`,
  `isec`, `navdata_airports`, `icao*`), and the adaptation built from them
  (`adaptation`, `locations`, `sectors`, `sector_index`, `maps`, `colours`,
  `symbols`, `line_styles`, `settings`, `sct_items`, `sct_text`).
- `tests/` — tests of the library on concrete files and values.
- `app/` — what stands around the library: reading files from disk, the
  squawks.json format, and the geodesic step for waypoints given as a bearing and
  range from a place, which works on floating-point numbers.

Coordinates are kept as whole numbers: thousandths of a second of arc for parsed
coordinates, millionths of a degree for quantized points, and decimal values in
millionths.
